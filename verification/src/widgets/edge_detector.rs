//! Edge detector: outputs true for exactly one cycle after its sampled
//! input transitions, rising or falling depending on configuration.  The
//! input is carried through two flip-flops; the output compares the two
//! samples combinationally, so a transition shows for one settled cycle.

use vstd::prelude::*;

use crate::block::Block;
use crate::graph::{CircuitDesc, CircuitDescV};
use crate::signal::{Direction, Signal};
use crate::widgets::dff::Dff;

verus! {

/// Detects rising or falling edges of its sampled input.
#[derive(Clone, Copy, Debug)]
pub struct EdgeDetector {
    /// The level to watch.
    pub input_signal: Signal<1>,
    /// High for one cycle after the configured transition.
    pub edge_signal: Signal<1>,
    /// Sampling clock.
    pub clock: Signal<1>,
    /// True to detect rising edges, false for falling ones.
    pub rising: bool,
    /// Newest sample.
    pub current: Dff<1>,
    /// Previous sample.
    pub prev: Dff<1>,
}

impl EdgeDetector {
    /// A detector for the chosen transition, both samples clear.
    pub fn new(rising: bool) -> (r: Self)
        ensures
            r.wf(),
            r.rising == rising,
            r.current == Dff::<1>::initial(),
            r.prev == Dff::<1>::initial(),
    {
        EdgeDetector {
            input_signal: Signal::new(Direction::In),
            edge_signal: Signal::new(Direction::Out),
            clock: Signal::new(Direction::In),
            rising,
            current: Dff::new(),
            prev: Dff::new(),
        }
    }
}

impl Block for EdgeDetector {
    type V = Self;

    open spec fn view_b(self) -> Self {
        self
    }

    open spec fn wf(self) -> bool {
        self.input_signal.wf() && self.edge_signal.wf() && self.clock.wf() && self.current.wf()
            && self.prev.wf()
    }

    open spec fn step(pre: Self) -> Self {
        let edge = if pre.rising {
            pre.current.q.current == 1 && pre.prev.q.current == 0
        } else {
            pre.current.q.current == 0 && pre.prev.q.current == 1
        };
        let mid = EdgeDetector {
            input_signal: pre.input_signal,
            edge_signal: pre.edge_signal.with_next(if edge { 1 } else { 0 }),
            clock: pre.clock,
            rising: pre.rising,
            current: Dff {
                clk: pre.current.clk.with_next(pre.clock.current),
                d: pre.current.d.with_next(pre.input_signal.current),
                ..pre.current
            },
            prev: Dff {
                clk: pre.prev.clk.with_next(pre.clock.current),
                d: pre.prev.d.with_next(pre.current.q.current),
                ..pre.prev
            },
        };
        EdgeDetector {
            current: <Dff<1> as Block>::step(mid.current),
            prev: <Dff<1> as Block>::step(mid.prev),
            ..mid
        }
    }

    open spec fn latched(pre: Self) -> Self {
        EdgeDetector {
            input_signal: pre.input_signal.latched(),
            edge_signal: pre.edge_signal.latched(),
            clock: pre.clock.latched(),
            rising: pre.rising,
            current: <Dff<1> as Block>::latched(pre.current),
            prev: <Dff<1> as Block>::latched(pre.prev),
        }
    }

    open spec fn snap(s: Self) -> Seq<u64> {
        seq![s.input_signal.current, s.edge_signal.current, s.clock.current] + <Dff<
            1,
        > as Block>::snap(s.current) + <Dff<1> as Block>::snap(s.prev)
    }

    open spec fn with_clock(pre: Self, level: bool) -> Self {
        EdgeDetector { clock: pre.clock.with_next(if level { 1 } else { 0 }), ..pre }
    }

    open spec fn describe_v(s: Self, path: Seq<char>, d: CircuitDescV) -> CircuitDescV {
        let base = d.sigs.len() as int;
        let d1 = d.with_sig(path + "."@ + "input_signal"@, 1, s.input_signal.dir,
            s.input_signal.connected, false)
            .with_sig(path + "."@ + "edge_signal"@, 1, s.edge_signal.dir,
            s.edge_signal.connected, false)
            .with_sig(path + "."@ + "clock"@, 1, s.clock.dir, s.clock.connected, false);
        let d2 = <Dff<1> as Block>::describe_v(s.current, path + "."@ + "current"@, d1);
        let d3 = <Dff<1> as Block>::describe_v(s.prev, path + "."@ + "prev"@, d2);
        d3.with_link(base + 2, base + 3).with_link(base, base + 4).with_link(
            base + 2,
            base + 7,
        ).with_link(base + 5, base + 8)
    }

    fn update(&mut self) {
        let edge = if self.rising {
            self.current.q.val() == 1 && self.prev.q.val() == 0
        } else {
            self.current.q.val() == 0 && self.prev.q.val() == 1
        };
        self.edge_signal.set_next(if edge { 1 } else { 0 });
        let c = self.clock.val();
        self.current.clk.set_next(c);
        let v = self.input_signal.val();
        self.current.d.set_next(v);
        self.prev.clk.set_next(c);
        let v = self.current.q.val();
        self.prev.d.set_next(v);
        self.current.update();
        self.prev.update();
    }

    fn commit(&mut self) {
        self.input_signal.commit();
        self.edge_signal.commit();
        self.clock.commit();
        self.current.commit();
        self.prev.commit();
    }

    fn settled(&self) -> (r: bool) {
        let r = self.input_signal.is_settled() && self.edge_signal.is_settled()
            && self.clock.is_settled() && self.current.settled() && self.prev.settled();
        proof {
            if r {
                assert(Self::latched(*self) == *self);
            }
        }
        r
    }

    fn set_clock(&mut self, level: bool) {
        self.clock.set_bool(level);
    }

    fn snapshot_into(&self, out: &mut Vec<u64>) {
        out.push(self.input_signal.current);
        out.push(self.edge_signal.current);
        out.push(self.clock.current);
        self.current.snapshot_into(out);
        self.prev.snapshot_into(out);
        proof {
            assert(out@ =~= old(out)@ + Self::snap(*self));
        }
    }

    fn describe(&self, path: &str, d: &mut CircuitDesc) {
        let i_in = d.add_signal(path, "input_signal", &self.input_signal, false);
        let _ = d.add_signal(path, "edge_signal", &self.edge_signal, false);
        let i_clock = d.add_signal(path, "clock", &self.clock, false);
        let sub = crate::graph::sub_path(path, "current");
        let b0 = d.sigs.len();
        let ghost v0 = d.view_d();
        self.current.describe(sub.as_str(), d);
        let ghost sub0 = sub@;
        let sub = crate::graph::sub_path(path, "prev");
        let b1 = d.sigs.len();
        let ghost v1 = d.view_d();
        self.prev.describe(sub.as_str(), d);
        let n = d.sigs.len();
        proof {
            assert(v1 == <Dff<1> as Block>::describe_v(self.current, sub0, v0));
            assert(v1.sigs.len() == v0.sigs.len() + 4);
            assert(d.view_d() == <Dff<1> as Block>::describe_v(self.prev, sub@, v1));
            assert(d.view_d().sigs.len() == v1.sigs.len() + 4);
            assert(b1 == b0 + 4);
            assert(n == b0 + 8);
        }
        d.add_link(i_clock, b0);
        d.add_link(i_in, b0 + 1);
        d.add_link(i_clock, b1);
        d.add_link(b0 + 2, b1 + 1);
        proof {
            assert(d.view_d() =~= Self::describe_v(*self, path@, old(d).view_d()));
        }
    }

    proof fn lemma_step_idempotent(s: Self) {
    }

    proof fn lemma_step_keeps_current(s: Self) {
        assert(Self::snap(Self::step(s)) =~= Self::snap(s));
    }
}

} // verus!
