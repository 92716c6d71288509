//! Bus-attached data ports.  A `MOSIPort` receives single words from the
//! controller with a ready/strobe handshake; a `MOSIWidePort` assembles a
//! wide word from consecutive bus beats, most significant beat first; a
//! `MISOWidePort` serves a wide word back out beat by beat.

use vstd::prelude::*;
use vstd::arithmetic::power2::pow2;

use crate::block::Block;
use crate::graph::{CircuitDesc, CircuitDescV};
use crate::hls::bus::SoCPortResponder;
use crate::signal::{incr_w, or_w, shl_mask, shr_w, Direction, Signal};
use crate::widgets::dff::Dff;

verus! {

/// A `D`-bit write port: the selected, strobed bus word is registered into
/// `port_out`, and `strobe_out` pulses for exactly one cycle after it.
#[derive(Clone, Copy, Debug)]
pub struct MOSIPort<const D: usize> {
    /// The device side of the port's bus slot.
    pub bus: SoCPortResponder<D>,
    /// The last word written to this port.
    pub port_out: Signal<D>,
    /// High for one cycle when `port_out` was just written.
    pub strobe_out: Signal<1>,
    /// Consumer-side readiness, reflected back to the bus when selected.
    pub ready: Signal<1>,
    /// Data register.
    pub data: Dff<D>,
    /// Write-pulse register.
    pub pulse: Dff<1>,
}

impl<const D: usize> MOSIPort<D> {
    /// A port holding zero, not selected.
    pub fn default() -> (r: Self)
        requires
            1 <= D <= 64,
        ensures
            r.wf(),
            r.bus == SoCPortResponder::<D>::initial(),
            r.data == Dff::<D>::initial(),
    {
        MOSIPort {
            bus: SoCPortResponder::new(),
            port_out: Signal::new(Direction::Out),
            strobe_out: Signal::new(Direction::Out),
            ready: Signal::new(Direction::In),
            data: Dff::new(),
            pulse: Dff::new(),
        }
    }
}

impl<const D: usize> Block for MOSIPort<D> {
    type V = Self;

    open spec fn view_b(self) -> Self {
        self
    }

    open spec fn wf(self) -> bool {
        &&& self.bus.wf()
        &&& self.port_out.wf()
        &&& self.strobe_out.wf()
        &&& self.ready.wf()
        &&& self.data.wf()
        &&& self.pulse.wf()
    }

    open spec fn step(pre: Self) -> Self {
        let taking = pre.bus.select.current == 1 && pre.bus.strobe.current == 1;
        let mid = MOSIPort {
            bus: SoCPortResponder {
                ready: pre.bus.ready.with_next(
                    if pre.ready.current == 1 && pre.bus.select.current == 1 {
                        1
                    } else {
                        0
                    },
                ),
                to_controller: pre.bus.to_controller.with_next(0),
                ..pre.bus
            },
            port_out: pre.port_out.with_next(pre.data.q.current),
            strobe_out: pre.strobe_out.with_next(pre.pulse.q.current),
            ready: pre.ready,
            data: Dff {
                clk: pre.data.clk.with_next(pre.bus.clock.current),
                d: pre.data.d.with_next(
                    if taking {
                        pre.bus.from_controller.current
                    } else {
                        pre.data.q.current
                    },
                ),
                ..pre.data
            },
            pulse: Dff {
                clk: pre.pulse.clk.with_next(pre.bus.clock.current),
                d: pre.pulse.d.with_next(
                    if taking {
                        1
                    } else {
                        0
                    },
                ),
                ..pre.pulse
            },
        };
        MOSIPort {
            data: <Dff<D> as Block>::step(mid.data),
            pulse: <Dff<1> as Block>::step(mid.pulse),
            ..mid
        }
    }

    open spec fn latched(pre: Self) -> Self {
        MOSIPort {
            bus: SoCPortResponder::latched(pre.bus),
            port_out: pre.port_out.latched(),
            strobe_out: pre.strobe_out.latched(),
            ready: pre.ready.latched(),
            data: <Dff<D> as Block>::latched(pre.data),
            pulse: <Dff<1> as Block>::latched(pre.pulse),
        }
    }

    open spec fn snap(s: Self) -> Seq<u64> {
        SoCPortResponder::snap(s.bus) + seq![
            s.port_out.current,
            s.strobe_out.current,
            s.ready.current,
        ] + <Dff<D> as Block>::snap(s.data) + <Dff<1> as Block>::snap(s.pulse)
    }

    open spec fn with_clock(pre: Self, level: bool) -> Self {
        MOSIPort {
            bus: SoCPortResponder {
                clock: pre.bus.clock.with_next(if level { 1 } else { 0 }),
                ..pre.bus
            },
            ..pre
        }
    }

    open spec fn describe_v(s: Self, path: Seq<char>, d: CircuitDescV) -> CircuitDescV {
        let base = d.sigs.len() as int;
        let d1 = s.bus.describe_v(path, d);
        let d2 = d1.with_sig(path + "."@ + "port_out"@, D as nat, s.port_out.dir,
            s.port_out.connected, true)
            .with_sig(path + "."@ + "strobe_out"@, 1, s.strobe_out.dir, s.strobe_out.connected,
            true)
            .with_sig(path + "."@ + "ready"@, 1, s.ready.dir, s.ready.connected, false);
        let d3 = <Dff<D> as Block>::describe_v(s.data, path + "."@ + "data"@, d2);
        let d4 = <Dff<1> as Block>::describe_v(s.pulse, path + "."@ + "pulse"@, d3);
        d4.with_link(base + 3, base + 10).with_link(base, base + 11).with_link(
            base + 3,
            base + 14,
        ).with_link(base + 7, base + 15)
    }

    fn update(&mut self) {
        let taking = self.bus.select.val() == 1 && self.bus.strobe.val() == 1;
        let rdy = self.ready.val() == 1 && self.bus.select.val() == 1;
        self.bus.ready.set_next(if rdy { 1 } else { 0 });
        self.bus.to_controller.set_next(0);
        let v = self.data.q.val();
        self.port_out.set_next(v);
        let v = self.pulse.q.val();
        self.strobe_out.set_next(v);
        let c = self.bus.clock.val();
        self.data.clk.set_next(c);
        let dn = if taking {
            self.bus.from_controller.val()
        } else {
            self.data.q.val()
        };
        self.data.d.set_next(dn);
        self.pulse.clk.set_next(c);
        self.pulse.d.set_next(if taking { 1 } else { 0 });
        self.data.update();
        self.pulse.update();
    }

    fn commit(&mut self) {
        self.bus.commit_signals();
        self.port_out.commit();
        self.strobe_out.commit();
        self.ready.commit();
        self.data.commit();
        self.pulse.commit();
    }

    fn settled(&self) -> (r: bool) {
        let r = self.bus.settled_signals() && self.port_out.is_settled()
            && self.strobe_out.is_settled() && self.ready.is_settled() && self.data.settled()
            && self.pulse.settled();
        proof {
            if r {
                assert(Self::latched(*self) == *self);
            }
        }
        r
    }

    fn set_clock(&mut self, level: bool) {
        self.bus.clock.set_bool(level);
    }

    fn snapshot_into(&self, out: &mut Vec<u64>) {
        self.bus.snapshot_into(out);
        out.push(self.port_out.current);
        out.push(self.strobe_out.current);
        out.push(self.ready.current);
        self.data.snapshot_into(out);
        self.pulse.snapshot_into(out);
        proof {
            assert(out@ =~= old(out)@ + Self::snap(*self));
        }
    }

    fn describe(&self, path: &str, d: &mut CircuitDesc) {
        let bb = self.bus.describe_into(path, d);
        let i_po = d.add_signal(path, "port_out", &self.port_out, true);
        let _ = d.add_signal(path, "strobe_out", &self.strobe_out, true);
        let _ = d.add_signal(path, "ready", &self.ready, false);
        let sub = crate::graph::sub_path(path, "data");
        let b0 = d.sigs.len();
        let ghost v0 = d.view_d();
        self.data.describe(sub.as_str(), d);
        let ghost sub0 = sub@;
        let sub = crate::graph::sub_path(path, "pulse");
        let b1 = d.sigs.len();
        let ghost v1 = d.view_d();
        self.pulse.describe(sub.as_str(), d);
        let n = d.sigs.len();
        proof {
            assert(v1 == <Dff<D> as Block>::describe_v(self.data, sub0, v0));
            assert(v1.sigs.len() == v0.sigs.len() + 4);
            assert(d.view_d() == <Dff<1> as Block>::describe_v(self.pulse, sub@, v1));
            assert(d.view_d().sigs.len() == v1.sigs.len() + 4);
            assert(b0 == bb + 10);
            assert(b1 == bb + 14);
            assert(n == bb + 18);
        }
        d.add_link(bb + 3, b0);
        d.add_link(bb, b0 + 1);
        d.add_link(bb + 3, b1);
        d.add_link(i_po, b1 + 1);
        proof {
            assert(d.view_d() =~= Self::describe_v(*self, path@, old(d).view_d()));
        }
    }

    #[verifier::spinoff_prover]
    #[verifier::rlimit(60)]
    proof fn lemma_step_idempotent(s: Self) {
    }

    proof fn lemma_step_keeps_current(s: Self) {
        assert(Self::snap(Self::step(s)) =~= Self::snap(s));
    }
}

/// A wide write port: `BEATS = W / D` consecutive strobed bus words are
/// shifted into an accumulator, most significant beat first; when the last
/// beat lands, the assembled word is registered into `port_out` and
/// `strobe_out` pulses once.
#[derive(Clone, Copy, Debug)]
pub struct MOSIWidePort<const W: usize, const D: usize> {
    /// The device side of the port's bus slot.
    pub bus: SoCPortResponder<D>,
    /// The last fully assembled wide word.
    pub port_out: Signal<W>,
    /// High for one cycle when `port_out` was just assembled.
    pub strobe_out: Signal<1>,
    /// Beat accumulator.
    pub accum: Dff<W>,
    /// Beat counter.
    pub count: Dff<8>,
    /// Output register.
    pub outreg: Dff<W>,
    /// Completion pulse register.
    pub pulse: Dff<1>,
}

impl<const W: usize, const D: usize> MOSIWidePort<W, D> {
    /// A port with an empty accumulator.
    pub fn default() -> (r: Self)
        requires
            1 <= D <= 64,
            1 <= W <= 64,
            D <= W,
        ensures
            r.wf(),
            r.bus == SoCPortResponder::<D>::initial(),
            r.accum == Dff::<W>::initial(),
            r.count == Dff::<8>::initial(),
            r.outreg == Dff::<W>::initial(),
    {
        MOSIWidePort {
            bus: SoCPortResponder::new(),
            port_out: Signal::new(Direction::Out),
            strobe_out: Signal::new(Direction::Out),
            accum: Dff::new(),
            count: Dff::new(),
            outreg: Dff::new(),
            pulse: Dff::new(),
        }
    }

    /// The number of bus beats per wide word.
    pub open spec fn beats() -> int {
        W as int / D as int
    }
}

impl<const W: usize, const D: usize> Block for MOSIWidePort<W, D> {
    type V = Self;

    open spec fn view_b(self) -> Self {
        self
    }

    open spec fn wf(self) -> bool {
        &&& D <= W
        &&& self.bus.wf()
        &&& self.port_out.wf()
        &&& self.strobe_out.wf()
        &&& self.accum.wf()
        &&& self.count.wf()
        &&& self.outreg.wf()
        &&& self.pulse.wf()
    }

    open spec fn step(pre: Self) -> Self {
        let taking = pre.bus.select.current == 1 && pre.bus.strobe.current == 1;
        let shifted = (((pre.accum.q.current as nat * pow2(D as nat)) % pow2(W as nat)) as u64) | pre.bus.from_controller.current;
        let complete = taking && pre.count.q.current + 1 == Self::beats();
        let mid = MOSIWidePort {
            bus: SoCPortResponder {
                ready: pre.bus.ready.with_next(1),
                to_controller: pre.bus.to_controller.with_next(0),
                ..pre.bus
            },
            port_out: pre.port_out.with_next(pre.outreg.q.current),
            strobe_out: pre.strobe_out.with_next(pre.pulse.q.current),
            accum: Dff {
                clk: pre.accum.clk.with_next(pre.bus.clock.current),
                d: pre.accum.d.with_next(
                    if complete {
                        0
                    } else if taking {
                        shifted
                    } else {
                        pre.accum.q.current
                    },
                ),
                ..pre.accum
            },
            count: Dff {
                clk: pre.count.clk.with_next(pre.bus.clock.current),
                d: pre.count.d.with_next(
                    if complete {
                        0
                    } else if taking {
                        ((pre.count.q.current as nat + 1) % pow2(8)) as u64
                    } else {
                        pre.count.q.current
                    },
                ),
                ..pre.count
            },
            outreg: Dff {
                clk: pre.outreg.clk.with_next(pre.bus.clock.current),
                d: pre.outreg.d.with_next(
                    if complete {
                        shifted
                    } else {
                        pre.outreg.q.current
                    },
                ),
                ..pre.outreg
            },
            pulse: Dff {
                clk: pre.pulse.clk.with_next(pre.bus.clock.current),
                d: pre.pulse.d.with_next(
                    if complete {
                        1
                    } else {
                        0
                    },
                ),
                ..pre.pulse
            },
        };
        MOSIWidePort {
            accum: <Dff<W> as Block>::step(mid.accum),
            count: <Dff<8> as Block>::step(mid.count),
            outreg: <Dff<W> as Block>::step(mid.outreg),
            pulse: <Dff<1> as Block>::step(mid.pulse),
            ..mid
        }
    }

    open spec fn latched(pre: Self) -> Self {
        MOSIWidePort {
            bus: SoCPortResponder::latched(pre.bus),
            port_out: pre.port_out.latched(),
            strobe_out: pre.strobe_out.latched(),
            accum: <Dff<W> as Block>::latched(pre.accum),
            count: <Dff<8> as Block>::latched(pre.count),
            outreg: <Dff<W> as Block>::latched(pre.outreg),
            pulse: <Dff<1> as Block>::latched(pre.pulse),
        }
    }

    open spec fn snap(s: Self) -> Seq<u64> {
        SoCPortResponder::snap(s.bus) + seq![s.port_out.current, s.strobe_out.current] + <Dff<
            W,
        > as Block>::snap(s.accum) + <Dff<8> as Block>::snap(s.count) + <Dff<W> as Block>::snap(
            s.outreg,
        ) + <Dff<1> as Block>::snap(s.pulse)
    }

    open spec fn with_clock(pre: Self, level: bool) -> Self {
        MOSIWidePort {
            bus: SoCPortResponder {
                clock: pre.bus.clock.with_next(if level { 1 } else { 0 }),
                ..pre.bus
            },
            ..pre
        }
    }

    open spec fn describe_v(s: Self, path: Seq<char>, d: CircuitDescV) -> CircuitDescV {
        let base = d.sigs.len() as int;
        let d1 = s.bus.describe_v(path, d);
        let d2 = d1.with_sig(path + "."@ + "port_out"@, W as nat, s.port_out.dir,
            s.port_out.connected, true)
            .with_sig(path + "."@ + "strobe_out"@, 1, s.strobe_out.dir, s.strobe_out.connected,
            true);
        let d3 = <Dff<W> as Block>::describe_v(s.accum, path + "."@ + "accum"@, d2);
        let d4 = <Dff<8> as Block>::describe_v(s.count, path + "."@ + "count"@, d3);
        let d5 = <Dff<W> as Block>::describe_v(s.outreg, path + "."@ + "outreg"@, d4);
        let d6 = <Dff<1> as Block>::describe_v(s.pulse, path + "."@ + "pulse"@, d5);
        d6.with_link(base + 3, base + 9).with_link(base + 7, base + 10).with_link(
            base + 3,
            base + 13,
        ).with_link(base + 7, base + 14).with_link(base + 3, base + 17).with_link(
            base + 7,
            base + 18,
        ).with_link(base + 3, base + 21).with_link(base + 7, base + 22)
    }

    fn update(&mut self) {
        let taking = self.bus.select.val() == 1 && self.bus.strobe.val() == 1;
        let sh = shl_mask(self.accum.q.val(), D, W);
        proof {
            vstd::arithmetic::power2::lemma_pow2_pos(W as nat);
            vstd::arithmetic::power2::lemma2_to64();
            vstd::arithmetic::power2::lemma2_to64_rest();
            if D < W {
                vstd::arithmetic::power2::lemma_pow2_strictly_increases(D as nat, W as nat);
            }
        }
        let shifted = or_w(sh, self.bus.from_controller.val(), W);
        let complete = taking && self.count.q.val() + 1 == (W / D) as u64;
        self.bus.ready.set_next(1);
        self.bus.to_controller.set_next(0);
        let v = self.outreg.q.val();
        self.port_out.set_next(v);
        let v = self.pulse.q.val();
        self.strobe_out.set_next(v);
        let c = self.bus.clock.val();
        self.accum.clk.set_next(c);
        let an = if complete {
            0
        } else if taking {
            shifted
        } else {
            self.accum.q.val()
        };
        self.accum.d.set_next(an);
        self.count.clk.set_next(c);
        let cn = if complete {
            0
        } else if taking {
            incr_w(self.count.q.val(), 8)
        } else {
            self.count.q.val()
        };
        self.count.d.set_next(cn);
        self.outreg.clk.set_next(c);
        let on = if complete {
            shifted
        } else {
            self.outreg.q.val()
        };
        self.outreg.d.set_next(on);
        self.pulse.clk.set_next(c);
        self.pulse.d.set_next(if complete { 1 } else { 0 });
        self.accum.update();
        self.count.update();
        self.outreg.update();
        self.pulse.update();
    }

    fn commit(&mut self) {
        self.bus.commit_signals();
        self.port_out.commit();
        self.strobe_out.commit();
        self.accum.commit();
        self.count.commit();
        self.outreg.commit();
        self.pulse.commit();
    }

    fn settled(&self) -> (r: bool) {
        let r = self.bus.settled_signals() && self.port_out.is_settled()
            && self.strobe_out.is_settled() && self.accum.settled() && self.count.settled()
            && self.outreg.settled() && self.pulse.settled();
        proof {
            if r {
                assert(Self::latched(*self) == *self);
            }
        }
        r
    }

    fn set_clock(&mut self, level: bool) {
        self.bus.clock.set_bool(level);
    }

    fn snapshot_into(&self, out: &mut Vec<u64>) {
        self.bus.snapshot_into(out);
        out.push(self.port_out.current);
        out.push(self.strobe_out.current);
        self.accum.snapshot_into(out);
        self.count.snapshot_into(out);
        self.outreg.snapshot_into(out);
        self.pulse.snapshot_into(out);
        proof {
            assert(out@ =~= old(out)@ + Self::snap(*self));
        }
    }

    fn describe(&self, path: &str, d: &mut CircuitDesc) {
        let bb = self.bus.describe_into(path, d);
        let i_po = d.add_signal(path, "port_out", &self.port_out, true);
        let _ = d.add_signal(path, "strobe_out", &self.strobe_out, true);
        let sub = crate::graph::sub_path(path, "accum");
        let b0 = d.sigs.len();
        let ghost v0 = d.view_d();
        self.accum.describe(sub.as_str(), d);
        let ghost sub0 = sub@;
        let sub = crate::graph::sub_path(path, "count");
        let b1 = d.sigs.len();
        let ghost v1 = d.view_d();
        self.count.describe(sub.as_str(), d);
        let ghost sub1 = sub@;
        let sub = crate::graph::sub_path(path, "outreg");
        let b2 = d.sigs.len();
        let ghost v2 = d.view_d();
        self.outreg.describe(sub.as_str(), d);
        let ghost sub2 = sub@;
        let sub = crate::graph::sub_path(path, "pulse");
        let b3 = d.sigs.len();
        let ghost v3 = d.view_d();
        self.pulse.describe(sub.as_str(), d);
        let n = d.sigs.len();
        proof {
            assert(v1 == <Dff<W> as Block>::describe_v(self.accum, sub0, v0));
            assert(v1.sigs.len() == v0.sigs.len() + 4);
            assert(v2 == <Dff<8> as Block>::describe_v(self.count, sub1, v1));
            assert(v2.sigs.len() == v1.sigs.len() + 4);
            assert(v3 == <Dff<W> as Block>::describe_v(self.outreg, sub2, v2));
            assert(v3.sigs.len() == v2.sigs.len() + 4);
            assert(d.view_d() == <Dff<1> as Block>::describe_v(self.pulse, sub@, v3));
            assert(d.view_d().sigs.len() == v3.sigs.len() + 4);
            assert(b0 == bb + 9);
            assert(b1 == bb + 13);
            assert(b2 == bb + 17);
            assert(b3 == bb + 21);
            assert(n == bb + 25);
        }
        d.add_link(bb + 3, b0);
        d.add_link(i_po, b0 + 1);
        d.add_link(bb + 3, b1);
        d.add_link(i_po, b1 + 1);
        d.add_link(bb + 3, b2);
        d.add_link(i_po, b2 + 1);
        d.add_link(bb + 3, b3);
        d.add_link(i_po, b3 + 1);
        proof {
            assert(d.view_d() =~= Self::describe_v(*self, path@, old(d).view_d()));
        }
    }

    #[verifier::spinoff_prover]
    #[verifier::rlimit(80)]
    proof fn lemma_step_idempotent(s: Self) {
        let v1 = Self::step(s);
        let v2 = Self::step(v1);
        assert(v1.accum.q.current == s.accum.q.current);
        assert(v1.count.q.current == s.count.q.current);
        assert(v1.outreg.q.current == s.outreg.q.current);
        assert(v1.pulse.q.current == s.pulse.q.current);
        assert(v2.bus == v1.bus);
        assert(v2.port_out == v1.port_out);
        assert(v2.strobe_out == v1.strobe_out);
        assert(v2.accum == v1.accum);
        assert(v2.count == v1.count);
        assert(v2.outreg == v1.outreg);
        assert(v2.pulse == v1.pulse);
        assert(v2 == v1);
    }

    proof fn lemma_step_keeps_current(s: Self) {
        assert(Self::snap(Self::step(s)) =~= Self::snap(s));
    }
}

/// A wide read port: a strobed wide word is latched whole, then served to
/// the bus controller one `D`-bit beat at a time, most significant first.
#[derive(Clone, Copy, Debug)]
pub struct MISOWidePort<const W: usize, const D: usize> {
    /// The device side of the port's bus slot.
    pub bus: SoCPortResponder<D>,
    /// The wide word to serve.
    pub port_in: Signal<W>,
    /// Latch the wide word on this strobe.
    pub strobe_in: Signal<1>,
    /// Shift register serving the beats.
    pub accum: Dff<W>,
}

impl<const W: usize, const D: usize> MISOWidePort<W, D> {
    /// A port with an empty shift register.
    pub fn default() -> (r: Self)
        requires
            1 <= D <= 64,
            1 <= W <= 64,
            D <= W,
        ensures
            r.wf(),
            r.bus == SoCPortResponder::<D>::initial(),
            r.accum == Dff::<W>::initial(),
    {
        MISOWidePort {
            bus: SoCPortResponder::new(),
            port_in: Signal::new(Direction::In),
            strobe_in: Signal::new(Direction::In),
            accum: Dff::new(),
        }
    }
}

impl<const W: usize, const D: usize> Block for MISOWidePort<W, D> {
    type V = Self;

    open spec fn view_b(self) -> Self {
        self
    }

    open spec fn wf(self) -> bool {
        &&& D <= W
        &&& self.bus.wf()
        &&& self.port_in.wf()
        &&& self.strobe_in.wf()
        &&& self.accum.wf()
    }

    open spec fn step(pre: Self) -> Self {
        let serving = pre.bus.select.current == 1 && pre.bus.strobe.current == 1;
        let top = pre.accum.q.current as nat / pow2((W - D) as nat);
        let mid = MISOWidePort {
            bus: SoCPortResponder {
                ready: pre.bus.ready.with_next(1),
                to_controller: pre.bus.to_controller.with_next(top as u64),
                ..pre.bus
            },
            port_in: pre.port_in,
            strobe_in: pre.strobe_in,
            accum: Dff {
                clk: pre.accum.clk.with_next(pre.bus.clock.current),
                d: pre.accum.d.with_next(
                    if pre.strobe_in.current == 1 {
                        pre.port_in.current
                    } else if serving {
                        ((pre.accum.q.current as nat * pow2(D as nat)) % pow2(W as nat)) as u64
                    } else {
                        pre.accum.q.current
                    },
                ),
                ..pre.accum
            },
        };
        MISOWidePort { accum: <Dff<W> as Block>::step(mid.accum), ..mid }
    }

    open spec fn latched(pre: Self) -> Self {
        MISOWidePort {
            bus: SoCPortResponder::latched(pre.bus),
            port_in: pre.port_in.latched(),
            strobe_in: pre.strobe_in.latched(),
            accum: <Dff<W> as Block>::latched(pre.accum),
        }
    }

    open spec fn snap(s: Self) -> Seq<u64> {
        SoCPortResponder::snap(s.bus) + seq![s.port_in.current, s.strobe_in.current] + <Dff<
            W,
        > as Block>::snap(s.accum)
    }

    open spec fn with_clock(pre: Self, level: bool) -> Self {
        MISOWidePort {
            bus: SoCPortResponder {
                clock: pre.bus.clock.with_next(if level { 1 } else { 0 }),
                ..pre.bus
            },
            ..pre
        }
    }

    open spec fn describe_v(s: Self, path: Seq<char>, d: CircuitDescV) -> CircuitDescV {
        let base = d.sigs.len() as int;
        let d1 = s.bus.describe_v(path, d);
        let d2 = d1.with_sig(path + "."@ + "port_in"@, W as nat, s.port_in.dir,
            s.port_in.connected, false)
            .with_sig(path + "."@ + "strobe_in"@, 1, s.strobe_in.dir, s.strobe_in.connected,
            false);
        let d3 = <Dff<W> as Block>::describe_v(s.accum, path + "."@ + "accum"@, d2);
        d3.with_link(base + 3, base + 9).with_link(base + 7, base + 10)
    }

    fn update(&mut self) {
        let serving = self.bus.select.val() == 1 && self.bus.strobe.val() == 1;
        let top = shr_w(self.accum.q.val(), W - D);
        self.bus.ready.set_next(1);
        self.bus.to_controller.set_next(top);
        let c = self.bus.clock.val();
        self.accum.clk.set_next(c);
        let an = if self.strobe_in.val() == 1 {
            self.port_in.val()
        } else if serving {
            shl_mask(self.accum.q.val(), D, W)
        } else {
            self.accum.q.val()
        };
        self.accum.d.set_next(an);
        self.accum.update();
    }

    fn commit(&mut self) {
        self.bus.commit_signals();
        self.port_in.commit();
        self.strobe_in.commit();
        self.accum.commit();
    }

    fn settled(&self) -> (r: bool) {
        let r = self.bus.settled_signals() && self.port_in.is_settled()
            && self.strobe_in.is_settled() && self.accum.settled();
        proof {
            if r {
                assert(Self::latched(*self) == *self);
            }
        }
        r
    }

    fn set_clock(&mut self, level: bool) {
        self.bus.clock.set_bool(level);
    }

    fn snapshot_into(&self, out: &mut Vec<u64>) {
        self.bus.snapshot_into(out);
        out.push(self.port_in.current);
        out.push(self.strobe_in.current);
        self.accum.snapshot_into(out);
        proof {
            assert(out@ =~= old(out)@ + Self::snap(*self));
        }
    }

    fn describe(&self, path: &str, d: &mut CircuitDesc) {
        let bb = self.bus.describe_into(path, d);
        let i_pi = d.add_signal(path, "port_in", &self.port_in, false);
        let _ = d.add_signal(path, "strobe_in", &self.strobe_in, false);
        let sub = crate::graph::sub_path(path, "accum");
        let b0 = d.sigs.len();
        let ghost v0 = d.view_d();
        self.accum.describe(sub.as_str(), d);
        let n = d.sigs.len();
        proof {
            assert(d.view_d() == <Dff<W> as Block>::describe_v(self.accum, sub@, v0));
            assert(d.view_d().sigs.len() == v0.sigs.len() + 4);
            assert(b0 == bb + 9);
            assert(n == bb + 13);
        }
        d.add_link(bb + 3, b0);
        d.add_link(i_pi, b0 + 1);
        proof {
            assert(d.view_d() =~= Self::describe_v(*self, path@, old(d).view_d()));
        }
    }

    proof fn lemma_step_idempotent(s: Self) {
    }

    proof fn lemma_step_keeps_current(s: Self) {
        assert(Self::snap(Self::step(s)) =~= Self::snap(s));
    }
}

} // verus!
