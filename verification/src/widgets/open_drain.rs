//! Open-drain line primitives.  An open-drain buffer pulls a shared
//! tri-state line low while enabled and releases it otherwise; the line's
//! level is read back.  The tri-state discipline is dynamic: each side of
//! the line drives only while its enable holds, so exactly one active
//! driver holds the line at a time.

use vstd::prelude::*;

use crate::block::Block;
use crate::graph::{CircuitDesc, CircuitDescV};
use crate::signal::{Direction, Signal};

verus! {

/// One side's command half of an open-drain line: pull low while enabled.
#[derive(Clone, Copy, Debug)]
pub struct OpenDrainDriver {
    /// Pull the shared line low while high.
    pub enable: Signal<1>,
}

impl OpenDrainDriver {
    /// A released driver.
    pub fn default() -> (r: Self)
        ensures
            r.enable.wf(),
            r.enable == Signal::<1>::zeroed(Direction::Out),
    {
        OpenDrainDriver { enable: Signal::new(Direction::Out) }
    }
}

/// One side's observation half of an open-drain line: the level seen.
#[derive(Clone, Copy, Debug)]
pub struct OpenDrainReceiver {
    /// The line level seen by this side.
    pub line: Signal<1>,
}

impl OpenDrainReceiver {
    /// A receiver seeing a released (high) line.
    pub fn default() -> (r: Self)
        ensures
            r.line.wf(),
            r.line == Signal::<1>::zeroed(Direction::In),
    {
        OpenDrainReceiver { line: Signal::new(Direction::In) }
    }
}

/// A tri-state buffer on a shared line: drives the line low while enabled,
/// releases it otherwise, and reads the level back.
#[derive(Clone, Copy, Debug)]
pub struct OpenDrainBuffer {
    /// Pull the line low while high.
    pub enable: Signal<1>,
    /// The shared tri-state line.
    pub bus: Signal<1>,
    /// The line level seen: low while pulling, else the line itself.
    pub read_data: Signal<1>,
}

impl OpenDrainBuffer {
    /// A released buffer on a high-impedance line.
    pub fn default() -> (r: Self)
        ensures
            r.wf(),
            r == Self::initial(),
    {
        OpenDrainBuffer {
            enable: Signal::new(Direction::In),
            bus: Signal::new(Direction::InOut),
            read_data: Signal::new(Direction::Out),
        }
    }

    /// The all-zero reset state.
    pub open spec fn initial() -> OpenDrainBuffer {
        OpenDrainBuffer {
            enable: Signal::zeroed(Direction::In),
            bus: Signal::zeroed(Direction::InOut),
            read_data: Signal::zeroed(Direction::Out),
        }
    }
}

impl Block for OpenDrainBuffer {
    type V = Self;

    open spec fn view_b(self) -> Self {
        self
    }

    open spec fn wf(self) -> bool {
        self.enable.wf() && self.bus.wf() && self.read_data.wf()
    }

    open spec fn step(pre: Self) -> Self {
        let pulling = pre.enable.current == 1;
        OpenDrainBuffer {
            read_data: pre.read_data.with_next(
                if pulling {
                    0
                } else {
                    pre.bus.current
                },
            ),
            bus: if pulling {
                pre.bus.with_next(0)
            } else {
                pre.bus
            },
            ..pre
        }
    }

    open spec fn latched(pre: Self) -> Self {
        OpenDrainBuffer {
            enable: pre.enable.latched(),
            bus: pre.bus.latched(),
            read_data: pre.read_data.latched(),
        }
    }

    open spec fn snap(s: Self) -> Seq<u64> {
        seq![s.enable.current, s.bus.current, s.read_data.current]
    }

    open spec fn with_clock(pre: Self, level: bool) -> Self {
        pre
    }

    open spec fn describe_v(s: Self, path: Seq<char>, d: CircuitDescV) -> CircuitDescV {
        let base = d.sigs.len() as int;
        d.with_sig(path + "."@ + "enable"@, 1, s.enable.dir, s.enable.connected, false).with_sig(
            path + "."@ + "bus"@,
            1,
            s.bus.dir,
            s.bus.connected,
            false,
        ).with_sig(path + "."@ + "read_data"@, 1, s.read_data.dir, s.read_data.connected, false)
            .with_link(base + 1, base + 2)
    }

    fn update(&mut self) {
        let pulling = self.enable.val() == 1;
        let rd = if pulling {
            0
        } else {
            self.bus.val()
        };
        self.read_data.set_next(rd);
        if pulling {
            self.bus.set_next(0);
        }
    }

    fn commit(&mut self) {
        self.enable.commit();
        self.bus.commit();
        self.read_data.commit();
    }

    fn settled(&self) -> (r: bool) {
        let r = self.enable.is_settled() && self.bus.is_settled() && self.read_data.is_settled();
        proof {
            if r {
                assert(Self::latched(*self) == *self);
            }
        }
        r
    }

    fn set_clock(&mut self, level: bool) {
    }

    fn snapshot_into(&self, out: &mut Vec<u64>) {
        out.push(self.enable.current);
        out.push(self.bus.current);
        out.push(self.read_data.current);
        proof {
            assert(out@ =~= old(out)@ + Self::snap(*self));
        }
    }

    fn describe(&self, path: &str, d: &mut CircuitDesc) {
        let base = d.add_signal(path, "enable", &self.enable, false);
        let _ = d.add_signal(path, "bus", &self.bus, false);
        let _ = d.add_signal(path, "read_data", &self.read_data, false);
        d.add_link(base + 1, base + 2);
        proof {
            assert(d.view_d() =~= Self::describe_v(*self, path@, old(d).view_d()));
        }
    }

    proof fn lemma_step_idempotent(s: Self) {
    }

    proof fn lemma_step_keeps_current(s: Self) {
        assert(Self::snap(Self::step(s)) =~= Self::snap(s));
    }
}

} // verus!
