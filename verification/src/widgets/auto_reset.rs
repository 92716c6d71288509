//! Power-on reset conditioner: holds its active-low reset output asserted
//! for the first few clock cycles after start-up, then releases it for good
//! once an internal counter saturates.

use vstd::prelude::*;

use crate::block::Block;
use crate::graph::{CircuitDesc, CircuitDescV};
use crate::signal::{Direction, Signal};
use crate::widgets::dff::Dff;

verus! {

/// Active-low reset generator clocked from the system clock.
#[derive(Clone, Copy, Debug)]
pub struct AutoReset {
    /// Active-low reset: low while the start-up counter runs, high after.
    pub reset: Signal<1>,
    /// System clock.
    pub clock: Signal<1>,
    /// Start-up counter; saturates at seven.
    pub dff: Dff<3>,
}

impl AutoReset {
    /// A conditioner whose counter starts at zero, reset asserted.
    pub fn default() -> (r: Self)
        ensures
            r.wf(),
            r.dff == Dff::<3>::initial(),
    {
        AutoReset {
            reset: Signal::new(Direction::Out),
            clock: Signal::new(Direction::In),
            dff: Dff::new(),
        }
    }
}

impl Block for AutoReset {
    type V = Self;

    open spec fn view_b(self) -> Self {
        self
    }

    open spec fn wf(self) -> bool {
        self.reset.wf() && self.clock.wf() && self.dff.wf()
    }

    open spec fn step(pre: Self) -> Self {
        let full = pre.dff.q.current == 7;
        let mid = AutoReset {
            reset: pre.reset.with_next(if full { 1 } else { 0 }),
            clock: pre.clock,
            dff: Dff {
                clk: pre.dff.clk.with_next(pre.clock.current),
                d: pre.dff.d.with_next(
                    if full {
                        pre.dff.q.current
                    } else {
                        (pre.dff.q.current + 1) as u64
                    },
                ),
                ..pre.dff
            },
        };
        AutoReset { dff: <Dff<3> as Block>::step(mid.dff), ..mid }
    }

    open spec fn latched(pre: Self) -> Self {
        AutoReset {
            reset: pre.reset.latched(),
            clock: pre.clock.latched(),
            dff: <Dff<3> as Block>::latched(pre.dff),
        }
    }

    open spec fn snap(s: Self) -> Seq<u64> {
        seq![s.reset.current, s.clock.current] + <Dff<3> as Block>::snap(s.dff)
    }

    open spec fn with_clock(pre: Self, level: bool) -> Self {
        AutoReset { clock: pre.clock.with_next(if level { 1 } else { 0 }), ..pre }
    }

    open spec fn describe_v(s: Self, path: Seq<char>, d: CircuitDescV) -> CircuitDescV {
        let base = d.sigs.len() as int;
        let d1 = d.with_sig(path + "."@ + "reset"@, 1, s.reset.dir, s.reset.connected, true)
            .with_sig(path + "."@ + "clock"@, 1, s.clock.dir, s.clock.connected, false);
        let d2 = <Dff<3> as Block>::describe_v(s.dff, path + "."@ + "dff"@, d1);
        d2.with_link(base + 1, base + 2).with_link(base + 4, base + 3)
    }

    fn update(&mut self) {
        let c = self.clock.val();
        self.dff.clk.set_next(c);
        let q = self.dff.q.val();
        if q == 7 {
            self.reset.set_bool(true);
            self.dff.d.set_next(q);
        } else {
            proof {
                vstd::arithmetic::power2::lemma2_to64();
            }
            self.reset.set_bool(false);
            self.dff.d.set_next(q + 1);
        }
        self.dff.update();
    }

    fn commit(&mut self) {
        self.reset.commit();
        self.clock.commit();
        self.dff.commit();
    }

    fn settled(&self) -> (r: bool) {
        let r = self.reset.is_settled() && self.clock.is_settled() && self.dff.settled();
        proof {
            if r {
                assert(Self::latched(*self) == *self);
            }
        }
        r
    }

    fn set_clock(&mut self, level: bool) {
        self.clock.set_bool(level);
    }

    fn snapshot_into(&self, out: &mut Vec<u64>) {
        out.push(self.reset.current);
        out.push(self.clock.current);
        self.dff.snapshot_into(out);
        proof {
            assert(out@ =~= old(out)@ + Self::snap(*self));
        }
    }

    fn describe(&self, path: &str, d: &mut CircuitDesc) {
        let _i_reset = d.add_signal(path, "reset", &self.reset, true);
        let i_clock = d.add_signal(path, "clock", &self.clock, false);
        let sub = crate::graph::sub_path(path, "dff");
        let b = d.sigs.len();
        let ghost v_b = d.view_d();
        self.dff.describe(sub.as_str(), d);
        let n = d.sigs.len();
        proof {
            assert(d.view_d() == <Dff<3> as Block>::describe_v(self.dff, sub@, v_b));
            assert(<Dff<3> as Block>::describe_v(self.dff, sub@, v_b).sigs.len() == v_b.sigs.len()
                + 4);
            assert(v_b.sigs.len() == b);
            assert(d.view_d().sigs.len() == n);
            assert(n == b + 4);
        }
        d.add_link(i_clock, b);
        d.add_link(b + 2, b + 1);
        proof {
            assert(d.view_d() =~= Self::describe_v(*self, path@, old(d).view_d()));
        }
    }

    proof fn lemma_step_idempotent(s: Self) {
    }

    proof fn lemma_step_keeps_current(s: Self) {
        assert(Self::snap(Self::step(s)) =~= Self::snap(s));
    }
}

} // verus!
