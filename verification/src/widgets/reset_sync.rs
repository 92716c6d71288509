//! Reset synchronizer: carries an asynchronous reset request through two
//! flip-flops so that its release is aligned with the local clock.

use vstd::prelude::*;

use crate::block::Block;
use crate::graph::{CircuitDesc, CircuitDescV};
use crate::signal::{Direction, Signal};
use crate::widgets::dff::Dff;

verus! {

/// Two-stage synchronizer for a reset line.
#[derive(Clone, Copy, Debug)]
pub struct ResetSynchronizer {
    /// Raw reset request.
    pub reset_in: Signal<1>,
    /// Local clock.
    pub clock: Signal<1>,
    /// Clock-aligned reset.
    pub reset_out: Signal<1>,
    /// First synchronizer stage.
    pub d0: Dff<1>,
    /// Second synchronizer stage.
    pub d1: Dff<1>,
}

impl ResetSynchronizer {
    /// The all-zero reset state.
    pub open spec fn initial() -> ResetSynchronizer {
        ResetSynchronizer {
            reset_in: Signal::zeroed(Direction::In),
            clock: Signal::zeroed(Direction::In),
            reset_out: Signal::zeroed(Direction::Out),
            d0: Dff::initial(),
            d1: Dff::initial(),
        }
    }

    /// A synchronizer with both stages clear.
    pub fn default() -> (r: Self)
        ensures
            r.wf(),
            r == Self::initial(),
    {
        ResetSynchronizer {
            reset_in: Signal::new(Direction::In),
            clock: Signal::new(Direction::In),
            reset_out: Signal::new(Direction::Out),
            d0: Dff::new(),
            d1: Dff::new(),
        }
    }
}

impl Block for ResetSynchronizer {
    type V = Self;

    open spec fn view_b(self) -> Self {
        self
    }

    open spec fn wf(self) -> bool {
        self.reset_in.wf() && self.clock.wf() && self.reset_out.wf() && self.d0.wf()
            && self.d1.wf()
    }

    open spec fn step(pre: Self) -> Self {
        let mid = ResetSynchronizer {
            reset_in: pre.reset_in,
            clock: pre.clock,
            reset_out: pre.reset_out.with_next(pre.d1.q.current),
            d0: Dff {
                clk: pre.d0.clk.with_next(pre.clock.current),
                d: pre.d0.d.with_next(pre.reset_in.current),
                ..pre.d0
            },
            d1: Dff {
                clk: pre.d1.clk.with_next(pre.clock.current),
                d: pre.d1.d.with_next(pre.d0.q.current),
                ..pre.d1
            },
        };
        ResetSynchronizer {
            d0: <Dff<1> as Block>::step(mid.d0),
            d1: <Dff<1> as Block>::step(mid.d1),
            ..mid
        }
    }

    open spec fn latched(pre: Self) -> Self {
        ResetSynchronizer {
            reset_in: pre.reset_in.latched(),
            clock: pre.clock.latched(),
            reset_out: pre.reset_out.latched(),
            d0: <Dff<1> as Block>::latched(pre.d0),
            d1: <Dff<1> as Block>::latched(pre.d1),
        }
    }

    open spec fn snap(s: Self) -> Seq<u64> {
        seq![s.reset_in.current, s.clock.current, s.reset_out.current] + <Dff<1> as Block>::snap(
            s.d0,
        ) + <Dff<1> as Block>::snap(s.d1)
    }

    open spec fn with_clock(pre: Self, level: bool) -> Self {
        ResetSynchronizer { clock: pre.clock.with_next(if level { 1 } else { 0 }), ..pre }
    }

    open spec fn describe_v(s: Self, path: Seq<char>, d: CircuitDescV) -> CircuitDescV {
        let base = d.sigs.len() as int;
        let d1 = d.with_sig(path + "."@ + "reset_in"@, 1, s.reset_in.dir, s.reset_in.connected,
            false,
        ).with_sig(path + "."@ + "clock"@, 1, s.clock.dir, s.clock.connected, false).with_sig(
            path + "."@ + "reset_out"@,
            1,
            s.reset_out.dir,
            s.reset_out.connected,
            false,
        );
        let d2 = <Dff<1> as Block>::describe_v(s.d0, path + "."@ + "d0"@, d1);
        let d3 = <Dff<1> as Block>::describe_v(s.d1, path + "."@ + "d1"@, d2);
        d3.with_link(base + 1, base + 3).with_link(base, base + 4).with_link(
            base + 1,
            base + 7,
        ).with_link(base + 5, base + 8)
    }

    fn update(&mut self) {
        let v = self.d1.q.val();
        self.reset_out.set_next(v);
        let c = self.clock.val();
        self.d0.clk.set_next(c);
        let v = self.reset_in.val();
        self.d0.d.set_next(v);
        self.d1.clk.set_next(c);
        let v = self.d0.q.val();
        self.d1.d.set_next(v);
        self.d0.update();
        self.d1.update();
    }

    fn commit(&mut self) {
        self.reset_in.commit();
        self.clock.commit();
        self.reset_out.commit();
        self.d0.commit();
        self.d1.commit();
    }

    fn settled(&self) -> (r: bool) {
        let r = self.reset_in.is_settled() && self.clock.is_settled()
            && self.reset_out.is_settled() && self.d0.settled() && self.d1.settled();
        proof {
            if r {
                assert(Self::latched(*self) == *self);
            }
        }
        r
    }

    fn set_clock(&mut self, level: bool) {
        self.clock.set_bool(level);
    }

    fn snapshot_into(&self, out: &mut Vec<u64>) {
        out.push(self.reset_in.current);
        out.push(self.clock.current);
        out.push(self.reset_out.current);
        self.d0.snapshot_into(out);
        self.d1.snapshot_into(out);
        proof {
            assert(out@ =~= old(out)@ + Self::snap(*self));
        }
    }

    fn describe(&self, path: &str, d: &mut CircuitDesc) {
        let i_rin = d.add_signal(path, "reset_in", &self.reset_in, false);
        let i_clock = d.add_signal(path, "clock", &self.clock, false);
        let _ = d.add_signal(path, "reset_out", &self.reset_out, false);
        let sub = crate::graph::sub_path(path, "d0");
        let b0 = d.sigs.len();
        let ghost v0 = d.view_d();
        self.d0.describe(sub.as_str(), d);
        let ghost sub0 = sub@;
        let sub = crate::graph::sub_path(path, "d1");
        let b1 = d.sigs.len();
        let ghost v1 = d.view_d();
        self.d1.describe(sub.as_str(), d);
        let n = d.sigs.len();
        proof {
            assert(v1 == <Dff<1> as Block>::describe_v(self.d0, sub0, v0));
            assert(v1.sigs.len() == v0.sigs.len() + 4);
            assert(d.view_d() == <Dff<1> as Block>::describe_v(self.d1, sub@, v1));
            assert(d.view_d().sigs.len() == v1.sigs.len() + 4);
            assert(b1 == b0 + 4);
            assert(n == b0 + 8);
        }
        d.add_link(i_clock, b0);
        d.add_link(i_rin, b0 + 1);
        d.add_link(i_clock, b1);
        d.add_link(b0 + 2, b1 + 1);
        proof {
            assert(d.view_d() =~= Self::describe_v(*self, path@, old(d).view_d()));
        }
    }

    proof fn lemma_step_idempotent(s: Self) {
    }

    proof fn lemma_step_keeps_current(s: Self) {
        assert(Self::snap(Self::step(s)) =~= Self::snap(s));
    }
}

} // verus!
