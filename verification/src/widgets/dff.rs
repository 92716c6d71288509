//! The D flip-flop: the one clocked storage element every register is built
//! from.  On a rising clock edge the output adopts the input; at every other
//! moment it holds.  The edge is recognized by comparing the clock's settled
//! level against the level sampled on the previous settle pass, so one edge
//! loads the output exactly once however many passes the settle loop takes.
//! The flip-flop carries no dedicated reset line; blocks that need a
//! conditioned reset route one explicitly, as the reset conditioner does.

use vstd::prelude::*;

use crate::block::Block;
use crate::graph::{CircuitDesc, CircuitDescV};
use crate::signal::{Direction, Signal};

verus! {

/// A `W`-bit D flip-flop.
#[derive(Clone, Copy, Debug)]
pub struct Dff<const W: usize> {
    /// Clock input.
    pub clk: Signal<1>,
    /// Data input, sampled on the rising clock edge.
    pub d: Signal<W>,
    /// Registered output.
    pub q: Signal<W>,
    /// The clock level already acted on; blocks a second load on one edge.
    pub prev: Signal<1>,
}

impl<const W: usize> Dff<W> {
    /// A flip-flop holding zero.
    pub fn new() -> (r: Self)
        requires
            1 <= W <= 64,
        ensures
            r.wf(),
            r == Self::initial(),
    {
        Dff {
            clk: Signal::new(Direction::In),
            d: Signal::new(Direction::In),
            q: Signal::new(Direction::Out),
            prev: Signal::new(Direction::Local),
        }
    }

    /// The all-zero reset state.
    pub open spec fn initial() -> Dff<W> {
        Dff {
            clk: Signal { dir: Direction::In, current: 0, next: 0, connected: false },
            d: Signal { dir: Direction::In, current: 0, next: 0, connected: false },
            q: Signal { dir: Direction::Out, current: 0, next: 0, connected: false },
            prev: Signal { dir: Direction::Local, current: 0, next: 0, connected: false },
        }
    }
}

impl<const W: usize> Block for Dff<W> {
    type V = Self;

    open spec fn view_b(self) -> Self {
        self
    }

    open spec fn wf(self) -> bool {
        self.clk.wf() && self.d.wf() && self.q.wf() && self.prev.wf()
    }

    open spec fn step(pre: Self) -> Self {
        let rising = pre.clk.current == 1 && pre.prev.current == 0;
        Dff {
            q: pre.q.with_next(
                if rising {
                    pre.d.current
                } else {
                    pre.q.current
                },
            ),
            prev: pre.prev.with_next(pre.clk.current),
            ..pre
        }
    }

    open spec fn latched(pre: Self) -> Self {
        Dff {
            clk: pre.clk.latched(),
            d: pre.d.latched(),
            q: pre.q.latched(),
            prev: pre.prev.latched(),
        }
    }

    open spec fn snap(s: Self) -> Seq<u64> {
        seq![s.clk.current, s.d.current, s.q.current, s.prev.current]
    }

    open spec fn with_clock(pre: Self, level: bool) -> Self {
        Dff { clk: pre.clk.with_next(if level { 1 } else { 0 }), ..pre }
    }

    open spec fn describe_v(s: Self, path: Seq<char>, d: CircuitDescV) -> CircuitDescV {
        let base = d.sigs.len() as int;
        d.with_sig(path + "."@ + "clk"@, 1, s.clk.dir, s.clk.connected, false).with_sig(
            path + "."@ + "d"@,
            W as nat,
            s.d.dir,
            s.d.connected,
            false,
        ).with_sig(path + "."@ + "q"@, W as nat, s.q.dir, s.q.connected, true).with_sig(
            path + "."@ + "prev"@,
            1,
            s.prev.dir,
            s.prev.connected,
            false,
        ).with_dep(base, base + 3)
    }

    fn update(&mut self) {
        let rising = self.clk.val() == 1 && self.prev.val() == 0;
        let qn = if rising {
            self.d.val()
        } else {
            self.q.val()
        };
        self.q.set_next(qn);
        let level = self.clk.val();
        self.prev.set_next(level);
    }

    fn commit(&mut self) {
        self.clk.commit();
        self.d.commit();
        self.q.commit();
        self.prev.commit();
    }

    fn settled(&self) -> (r: bool) {
        let r = self.clk.is_settled() && self.d.is_settled() && self.q.is_settled()
            && self.prev.is_settled();
        proof {
            if r {
                assert(Self::latched(*self) == *self);
            }
        }
        r
    }

    fn set_clock(&mut self, level: bool) {
        self.clk.set_bool(level);
    }

    fn snapshot_into(&self, out: &mut Vec<u64>) {
        out.push(self.clk.current);
        out.push(self.d.current);
        out.push(self.q.current);
        out.push(self.prev.current);
        proof {
            assert(out@ =~= old(out)@ + Self::snap(*self));
        }
    }

    fn describe(&self, path: &str, d: &mut CircuitDesc) {
        let i_clk = d.add_signal(path, "clk", &self.clk, false);
        let _i_d = d.add_signal(path, "d", &self.d, false);
        let _i_q = d.add_signal(path, "q", &self.q, true);
        let i_prev = d.add_signal(path, "prev", &self.prev, false);
        d.add_dep(i_clk, i_prev);
        proof {
            assert(d.view_d() =~= Self::describe_v(*self, path@, old(d).view_d()));
        }
    }

    proof fn lemma_step_idempotent(s: Self) {
    }

    proof fn lemma_step_keeps_current(s: Self) {
        assert(Self::snap(Self::step(s)) =~= Self::snap(s));
    }
}

} // verus!
