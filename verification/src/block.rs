//! Logic blocks and the settle protocol.
//!
//! A block owns signals and child blocks and exposes one deterministic update
//! operation: read current values, write next values.  The kernel drives the
//! settle loop: update the whole block, compare pending against settled
//! values, commit and repeat until a fixed point, bounded by an iteration
//! cap.

use vstd::prelude::*;

use crate::errors::HdlError;
use crate::graph::{CircuitDesc, CircuitDescV};

verus! {

/// The interface every logic block implements.  `update` must be a pure
/// function of current values to next values; `commit` adopts every pending
/// value; `step`, `latched`, `snap` and `with_clock` are the mathematical
/// descriptions of those operations, stated over the block's mathematical
/// value `V` (the block itself for simple blocks, a `Seq`-shaped image for
/// blocks holding growable state).
pub trait Block: Sized {
    /// The mathematical value of the block.
    type V;

    /// The block's mathematical value.
    spec fn view_b(self) -> Self::V;

    /// Well-formedness: every owned signal is masked to its width.
    spec fn wf(self) -> bool;

    /// What one update pass does: every next value the block drives is
    /// recomputed from current values; current values stay untouched.
    spec fn step(pre: Self::V) -> Self::V;

    /// What a commit does: every signal's current value is replaced by its
    /// pending next value.
    spec fn latched(pre: Self::V) -> Self::V;

    /// The current values of every owned signal, in declaration order.
    spec fn snap(s: Self::V) -> Seq<u64>;

    /// The block with its clock input's pending value set to `level`.
    spec fn with_clock(pre: Self::V, level: bool) -> Self::V;

    /// The mathematical image of the description `describe` appends under
    /// the prefix `path`: every registered signal row, alias edge and
    /// combinational dependency edge.
    spec fn describe_v(s: Self, path: Seq<char>, d: CircuitDescV) -> CircuitDescV;

    /// One update pass over the block and all its children.
    fn update(&mut self)
        requires
            old(self).wf(),
        ensures
            final(self).wf(),
            final(self).view_b() == Self::step(old(self).view_b()),
    ;

    /// Adopt every pending value as settled.
    fn commit(&mut self)
        requires
            old(self).wf(),
        ensures
            final(self).wf(),
            final(self).view_b() == Self::latched(old(self).view_b()),
    ;

    /// Whether every pending value equals its settled value.
    fn settled(&self) -> (r: bool)
        requires
            self.wf(),
        ensures
            r == (Self::latched(self.view_b()) == self.view_b()),
    ;

    /// Drive the block's clock input to `level`.
    fn set_clock(&mut self, level: bool)
        requires
            old(self).wf(),
        ensures
            final(self).wf(),
            final(self).view_b() == Self::with_clock(old(self).view_b(), level),
    ;

    /// Append the current value of every owned signal to `out`.
    fn snapshot_into(&self, out: &mut Vec<u64>)
        requires
            self.wf(),
        ensures
            final(out)@ == old(out)@ + Self::snap(self.view_b()),
    ;

    /// Register the block's signals, link edges and combinational dependency
    /// edges under the dot-separated prefix `path`; what is appended is
    /// exactly `describe_v`.
    fn describe(&self, path: &str, d: &mut CircuitDesc)
        requires
            old(d).wf(),
        ensures
            final(d).wf(),
            final(d).sigs@.len() >= old(d).sigs@.len(),
            final(d).view_d() == Self::describe_v(*self, path@, old(d).view_d()),
    ;

    /// Anti-latch law: a second update pass from unchanged current values
    /// computes identical next values, so updating is idempotent.
    proof fn lemma_step_idempotent(s: Self)
        requires
            s.wf(),
        ensures
            Self::step(Self::step(s.view_b())) == Self::step(s.view_b()),
    ;

    /// Purity law: an update pass never touches a settled value.
    proof fn lemma_step_keeps_current(s: Self)
        requires
            s.wf(),
        ensures
            Self::snap(Self::step(s.view_b())) == Self::snap(s.view_b()),
    ;

    /// Walk the tree and check that every signal has a driver reachable
    /// through ownership or linking.  The result is pinned by the block's
    /// described graph: an input without a reachable driver fails the check,
    /// which names the first such signal's path, and a second call returns
    /// the same result.
    fn connect_all(&self) -> (r: Result<(), HdlError>)
        ensures
            ({
                let dv = Self::describe_v(*self, "top"@, CircuitDescV::empty());
                match r {
                    Ok(_) => forall|i: int|
                        0 <= i < dv.sigs.len() ==> crate::analysis::has_driver_v(dv, i),
                    Err(e) => (e matches HdlError::UnconnectedSignal { path } && (exists|i: int|
                        0 <= i < dv.sigs.len() && !crate::analysis::has_driver_v(dv, i) && path@
                            == dv.sigs[i].path && (forall|j: int|
                            0 <= j < i ==> crate::analysis::has_driver_v(dv, j)))),
                }
            }),
    {
        let mut d = CircuitDesc::new();
        self.describe("top", &mut d);
        let r = crate::analysis::connect_all(&d);
        proof {
            crate::analysis::lemma_view_has_driver(d);
            let dv = Self::describe_v(*self, "top"@, CircuitDescV::empty());
            assert(d.view_d() == dv);
            if r is Ok {
                {
                    assert forall|i: int|
                        0 <= i < dv.sigs.len() implies crate::analysis::has_driver_v(dv, i) by {
                        assert(crate::analysis::has_driver(d, i));
                    }
                }
            } else {
                let e = r->Err_0;
                {
                    let i = choose|i: int|
                        0 <= i < d.sigs@.len() && !crate::analysis::has_driver(d, i) && (e matches
                            HdlError::UnconnectedSignal { path } && path@ == d.sigs@[i].path@)
                            && (forall|j: int|
                            0 <= j < i ==> crate::analysis::has_driver(d, j));
                    assert(!crate::analysis::has_driver_v(dv, i));
                    assert(dv.sigs[i].path == d.sigs@[i].path@);
                    assert forall|j: int| 0 <= j < i implies crate::analysis::has_driver_v(
                        dv,
                        j,
                    ) by {
                        assert(crate::analysis::has_driver(d, j));
                    }
                }
            }
        }
        r
    }
}

/// The settle loop as a mathematical function: update, stop at a fixed
/// point, otherwise commit and repeat while fuel remains.  `None` means the
/// fuel ran out before a fixed point was reached.
pub open spec fn settle_rec<B: Block>(s: B::V, fuel: nat) -> Option<B::V>
    decreases fuel,
{
    let s1 = B::step(s);
    if B::latched(s1) == s1 {
        Some(s1)
    } else if fuel == 0 {
        None::<B::V>
    } else {
        settle_rec::<B>(B::latched(s1), (fuel - 1) as nat)
    }
}

/// Run the block's combinational logic to a fixed point: repeatedly update
/// and commit until no pending value differs from its settled one, giving up
/// after `cap` extra passes with a `NonConvergence` error.
pub fn settle<B: Block>(b: &mut B, cap: u32) -> (r: Result<u32, HdlError>)
    requires
        old(b).wf(),
    ensures
        final(b).wf(),
        match r {
            Ok(n) => n <= cap && settle_rec::<B>(old(b).view_b(), cap as nat) == Some(
                final(b).view_b(),
            ),
            Err(e) => settle_rec::<B>(old(b).view_b(), cap as nat) is None && (e matches
                HdlError::NonConvergence { iterations } && iterations == cap),
        },
{
    let ghost orig = old(b).view_b();
    let mut k: u32 = 0;
    loop
        invariant
            orig == old(b).view_b(),
            b.wf(),
            k <= cap,
            settle_rec::<B>(orig, cap as nat) == settle_rec::<B>(b.view_b(), (cap - k) as nat),
        decreases cap - k,
    {
        let ghost pre = b.view_b();
        b.update();
        if b.settled() {
            proof {
                assert(settle_rec::<B>(pre, (cap - k) as nat) == Some(b.view_b()));
            }
            return Ok(k);
        }
        if k == cap {
            proof {
                assert(settle_rec::<B>(pre, 0nat) is None);
            }
            return Err(HdlError::NonConvergence { iterations: cap });
        }
        b.commit();
        proof {
            assert(settle_rec::<B>(pre, (cap - k) as nat) == settle_rec::<B>(
                b.view_b(),
                (cap - k - 1) as nat,
            ));
        }
        k = k + 1;
    }
}

/// Determinism of the settle protocol: from equal states, the settle loop
/// reaches equal results.
pub proof fn lemma_settle_deterministic<B: Block>(s1: B::V, s2: B::V, fuel: nat)
    requires
        s1 == s2,
    ensures
        settle_rec::<B>(s1, fuel) == settle_rec::<B>(s2, fuel),
{
}

} // verus!
