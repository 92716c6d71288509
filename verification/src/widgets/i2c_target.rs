//! The I2C target: watches the two open-drain lines for start and stop
//! conditions, shifts address and data bits in, acknowledges while selected,
//! and shifts reply bytes out.  The fourteen-state machine mirrors the bus
//! protocol: a high-to-low data transition while the clock is high starts a
//! transaction, a low-to-high one ends it, and bits are sampled on clock
//! highs.  The invalid encodings of the state register fall back to idle.

use vstd::prelude::*;
use vstd::arithmetic::power2::pow2;

use crate::block::Block;
use crate::graph::{CircuitDesc, CircuitDescV};
use crate::signal::{incr_w, or_w, shl_mask, Direction, Signal};
use crate::widgets::dff::Dff;
use crate::widgets::open_drain::OpenDrainBuffer;

verus! {

pub const I2C_IDLE: u64 = 0;

pub const I2C_START: u64 = 1;

pub const I2C_READING: u64 = 2;

pub const I2C_WAITING: u64 = 3;

pub const I2C_FLAG: u64 = 4;

pub const I2C_ACK: u64 = 5;

pub const I2C_ACK_HOLD: u64 = 6;

pub const I2C_WAIT_END: u64 = 7;

pub const I2C_CHECK_STOP: u64 = 8;

pub const I2C_WRITING: u64 = 9;

pub const I2C_WAIT_SCL_HIGH: u64 = 10;

pub const I2C_WAIT_SCL_LOW: u64 = 11;

pub const I2C_WAIT_SCL_HIGH_ACK: u64 = 12;

pub const I2C_COLLECT_ACK: u64 = 13;

/// One pass of the target's combinational control: every pending register
/// input and flag, decided from the current state and line levels.
#[derive(Clone, Copy, Debug)]
pub struct I2cCtl {
    pub state_d: u64,
    pub sda_flop_d: u64,
    pub read_bit_d: u64,
    pub count_d: u64,
    pub accum_d: u64,
    pub set_sda: bool,
    pub clear_sda: bool,
    pub bus_write: bool,
    pub stop: bool,
    pub ack: bool,
    pub nack: bool,
    pub write_ok: bool,
}

/// The control decision as a mathematical function of the sampled state.
pub open spec fn i2c_ctl(
    st: u64,
    sda_hi: bool,
    scl_hi: bool,
    sda_flop_q: u64,
    read_bit_q: u64,
    count_q: u64,
    accum_q: u64,
    active: bool,
    to_bus: u64,
    write_enable: bool,
    set_cur: bool,
    clear_cur: bool,
) -> I2cCtl {
    let rb = read_bit_q == 1;
    let bit7 = accum_q >= 128;
    let inc16 = (((count_q + 1) as nat) % pow2(4)) as u64;
    let shl8 = (((accum_q * 2) as nat) % pow2(8)) as u64;
    I2cCtl {
        state_d: if st == I2C_IDLE {
            if !sda_hi && scl_hi {
                I2C_START
            } else {
                I2C_IDLE
            }
        } else if st == I2C_START {
            if sda_hi {
                I2C_IDLE
            } else if !scl_hi {
                I2C_READING
            } else {
                I2C_START
            }
        } else if st == I2C_WRITING {
            if count_q == 8 {
                I2C_WAIT_SCL_HIGH_ACK
            } else {
                I2C_WAIT_SCL_HIGH
            }
        } else if st == I2C_WAIT_SCL_HIGH_ACK {
            if scl_hi {
                I2C_COLLECT_ACK
            } else {
                st
            }
        } else if st == I2C_COLLECT_ACK {
            if !scl_hi {
                I2C_READING
            } else {
                st
            }
        } else if st == I2C_WAIT_SCL_HIGH {
            if scl_hi {
                I2C_WAIT_SCL_LOW
            } else {
                st
            }
        } else if st == I2C_WAIT_SCL_LOW {
            if !scl_hi {
                I2C_WRITING
            } else {
                st
            }
        } else if st == I2C_READING {
            if scl_hi {
                I2C_WAITING
            } else if write_enable {
                I2C_WRITING
            } else {
                st
            }
        } else if st == I2C_WAITING {
            if !scl_hi {
                if count_q == 7 {
                    I2C_FLAG
                } else {
                    I2C_READING
                }
            } else if rb != sda_hi {
                I2C_IDLE
            } else {
                st
            }
        } else if st == I2C_FLAG {
            I2C_ACK
        } else if st == I2C_ACK {
            if scl_hi {
                I2C_ACK_HOLD
            } else if !active {
                I2C_WAIT_END
            } else {
                st
            }
        } else if st == I2C_ACK_HOLD {
            if !scl_hi {
                I2C_READING
            } else {
                st
            }
        } else if st == I2C_WAIT_END {
            if scl_hi && !sda_hi {
                I2C_CHECK_STOP
            } else {
                st
            }
        } else if st == I2C_CHECK_STOP {
            if scl_hi && sda_hi {
                I2C_IDLE
            } else {
                st
            }
        } else {
            I2C_IDLE
        },
        sda_flop_d: if clear_cur {
            1
        } else if set_cur {
            0
        } else {
            sda_flop_q
        },
        read_bit_d: if st == I2C_READING && scl_hi {
            if sda_hi {
                1
            } else {
                0
            }
        } else {
            read_bit_q
        },
        count_d: if st == I2C_IDLE {
            0
        } else if st == I2C_WRITING {
            inc16
        } else if st == I2C_READING && write_enable {
            0
        } else if st == I2C_WAITING && !scl_hi {
            inc16
        } else if st == I2C_FLAG {
            0
        } else {
            count_q
        },
        accum_d: if st == I2C_WRITING {
            shl8
        } else if st == I2C_READING && write_enable {
            to_bus
        } else if st == I2C_WAITING && !scl_hi {
            (shl8 | (if rb {
                1u64
            } else {
                0u64
            }))
        } else if st == I2C_FLAG {
            0
        } else {
            accum_q
        },
        set_sda: (st == I2C_IDLE) || (st == I2C_WRITING && bit7) || (st == I2C_WAIT_SCL_HIGH_ACK
            && scl_hi) || (st == I2C_ACK_HOLD && !scl_hi),
        clear_sda: (st == I2C_WRITING && !bit7) || (st == I2C_ACK && active),
        bus_write: st == I2C_FLAG,
        stop: (st == I2C_WAITING && scl_hi && rb != sda_hi) || (st == I2C_CHECK_STOP && scl_hi
            && sda_hi),
        ack: st == I2C_COLLECT_ACK && !scl_hi && !sda_hi,
        nack: st == I2C_COLLECT_ACK && !scl_hi && sda_hi,
        write_ok: st == I2C_READING,
    }
}

/// Compute one control decision; exactly `i2c_ctl`.
pub fn i2c_ctl_exec(
    st: u64,
    sda_hi: bool,
    scl_hi: bool,
    sda_flop_q: u64,
    read_bit_q: u64,
    count_q: u64,
    accum_q: u64,
    active: bool,
    to_bus: u64,
    write_enable: bool,
    set_cur: bool,
    clear_cur: bool,
) -> (r: I2cCtl)
    requires
        count_q < 16,
        accum_q < 256,
        read_bit_q < 2,
    ensures
        r == i2c_ctl(
            st,
            sda_hi,
            scl_hi,
            sda_flop_q,
            read_bit_q,
            count_q,
            accum_q,
            active,
            to_bus,
            write_enable,
            set_cur,
            clear_cur,
        ),
{
    proof {
        vstd::arithmetic::power2::lemma2_to64();
    }
    let rb = read_bit_q == 1;
    let bit7 = accum_q >= 128;
    let inc16 = incr_w(count_q, 4);
    let shl8 = shl_mask(accum_q, 1, 8);
    let accum_or = or_w(shl8, if rb { 1 } else { 0 }, 8);
    proof {
        assert(accum_q * 2 == accum_q * pow2(1));
    }
    let state_d: u64 = if st == I2C_IDLE {
        if !sda_hi && scl_hi {
            I2C_START
        } else {
            I2C_IDLE
        }
    } else if st == I2C_START {
        if sda_hi {
            I2C_IDLE
        } else if !scl_hi {
            I2C_READING
        } else {
            I2C_START
        }
    } else if st == I2C_WRITING {
        if count_q == 8 {
            I2C_WAIT_SCL_HIGH_ACK
        } else {
            I2C_WAIT_SCL_HIGH
        }
    } else if st == I2C_WAIT_SCL_HIGH_ACK {
        if scl_hi {
            I2C_COLLECT_ACK
        } else {
            st
        }
    } else if st == I2C_COLLECT_ACK {
        if !scl_hi {
            I2C_READING
        } else {
            st
        }
    } else if st == I2C_WAIT_SCL_HIGH {
        if scl_hi {
            I2C_WAIT_SCL_LOW
        } else {
            st
        }
    } else if st == I2C_WAIT_SCL_LOW {
        if !scl_hi {
            I2C_WRITING
        } else {
            st
        }
    } else if st == I2C_READING {
        if scl_hi {
            I2C_WAITING
        } else if write_enable {
            I2C_WRITING
        } else {
            st
        }
    } else if st == I2C_WAITING {
        if !scl_hi {
            if count_q == 7 {
                I2C_FLAG
            } else {
                I2C_READING
            }
        } else if rb != sda_hi {
            I2C_IDLE
        } else {
            st
        }
    } else if st == I2C_FLAG {
        I2C_ACK
    } else if st == I2C_ACK {
        if scl_hi {
            I2C_ACK_HOLD
        } else if !active {
            I2C_WAIT_END
        } else {
            st
        }
    } else if st == I2C_ACK_HOLD {
        if !scl_hi {
            I2C_READING
        } else {
            st
        }
    } else if st == I2C_WAIT_END {
        if scl_hi && !sda_hi {
            I2C_CHECK_STOP
        } else {
            st
        }
    } else if st == I2C_CHECK_STOP {
        if scl_hi && sda_hi {
            I2C_IDLE
        } else {
            st
        }
    } else {
        I2C_IDLE
    };
    I2cCtl {
        state_d,
        sda_flop_d: if clear_cur {
            1
        } else if set_cur {
            0
        } else {
            sda_flop_q
        },
        read_bit_d: if st == I2C_READING && scl_hi {
            if sda_hi {
                1
            } else {
                0
            }
        } else {
            read_bit_q
        },
        count_d: if st == I2C_IDLE {
            0
        } else if st == I2C_WRITING {
            inc16
        } else if st == I2C_READING && write_enable {
            0
        } else if st == I2C_WAITING && !scl_hi {
            inc16
        } else if st == I2C_FLAG {
            0
        } else {
            count_q
        },
        accum_d: if st == I2C_WRITING {
            shl8
        } else if st == I2C_READING && write_enable {
            to_bus
        } else if st == I2C_WAITING && !scl_hi {
            accum_or
        } else if st == I2C_FLAG {
            0
        } else {
            accum_q
        },
        set_sda: (st == I2C_IDLE) || (st == I2C_WRITING && bit7) || (st == I2C_WAIT_SCL_HIGH_ACK
            && scl_hi) || (st == I2C_ACK_HOLD && !scl_hi),
        clear_sda: (st == I2C_WRITING && !bit7) || (st == I2C_ACK && active),
        bus_write: st == I2C_FLAG,
        stop: (st == I2C_WAITING && scl_hi && rb != sda_hi) || (st == I2C_CHECK_STOP && scl_hi
            && sda_hi),
        ack: st == I2C_COLLECT_ACK && !scl_hi && !sda_hi,
        nack: st == I2C_COLLECT_ACK && !scl_hi && sda_hi,
        write_ok: st == I2C_READING,
    }
}

/// An I2C bus target with a byte-wide register interface.
#[derive(Clone, Copy, Debug)]
pub struct I2CTarget {
    /// Shared data line.
    pub sda: Signal<1>,
    /// Shared clock line.
    pub scl: Signal<1>,
    /// Sampling clock.
    pub clock: Signal<1>,
    /// The byte last shifted in.
    pub from_bus: Signal<8>,
    /// Pulses when a full byte arrived.
    pub bus_write: Signal<1>,
    /// Whether this target is the addressed one and should acknowledge.
    pub active: Signal<1>,
    /// Pulses when a stop condition was seen.
    pub stop: Signal<1>,
    /// The byte to shift out.
    pub to_bus: Signal<8>,
    /// Start shifting `to_bus` out.
    pub write_enable: Signal<1>,
    /// The controller acknowledged the byte sent.
    pub ack: Signal<1>,
    /// The controller did not acknowledge the byte sent.
    pub nack: Signal<1>,
    /// A byte may be handed over for sending.
    pub write_ok: Signal<1>,
    /// Protocol state register.
    pub state: Dff<4>,
    /// Data-line pull register.
    pub sda_flop: Dff<1>,
    /// The bit sampled on the last clock high.
    pub read_bit: Dff<1>,
    /// Bit counter.
    pub count: Dff<4>,
    /// Shift register.
    pub accum: Dff<8>,
    /// Data-line tri-state buffer.
    pub sda_driver: OpenDrainBuffer,
    /// Clock-line tri-state buffer.
    pub scl_driver: OpenDrainBuffer,
    /// Data line level, one pass delayed.
    pub sda_is_high: Signal<1>,
    /// Clock line level, one pass delayed.
    pub scl_is_high: Signal<1>,
    /// Release the data line on the next pass.
    pub set_sda: Signal<1>,
    /// Pull the data line low on the next pass.
    pub clear_sda: Signal<1>,
}

impl I2CTarget {
    /// A target in the idle state with both lines released.
    pub fn default() -> (r: Self)
        ensures
            r.wf(),
            r.state == Dff::<4>::initial(),
            r.accum == Dff::<8>::initial(),
    {
        I2CTarget {
            sda: Signal::new(Direction::InOut),
            scl: Signal::new(Direction::InOut),
            clock: Signal::new(Direction::In),
            from_bus: Signal::new(Direction::Out),
            bus_write: Signal::new(Direction::Out),
            active: Signal::new(Direction::In),
            stop: Signal::new(Direction::Out),
            to_bus: Signal::new(Direction::In),
            write_enable: Signal::new(Direction::In),
            ack: Signal::new(Direction::Out),
            nack: Signal::new(Direction::Out),
            write_ok: Signal::new(Direction::Out),
            state: Dff::new(),
            sda_flop: Dff::new(),
            read_bit: Dff::new(),
            count: Dff::new(),
            accum: Dff::new(),
            sda_driver: OpenDrainBuffer::default(),
            scl_driver: OpenDrainBuffer::default(),
            sda_is_high: Signal::new(Direction::Local),
            scl_is_high: Signal::new(Direction::Local),
            set_sda: Signal::new(Direction::Local),
            clear_sda: Signal::new(Direction::Local),
        }
    }

    /// The wiring and control stage of one update pass, before the children
    /// run.
    pub open spec fn wired(pre: I2CTarget) -> I2CTarget {
        let ctl = i2c_ctl(
            pre.state.q.current,
            pre.sda_is_high.current == 1,
            pre.scl_is_high.current == 1,
            pre.sda_flop.q.current,
            pre.read_bit.q.current,
            pre.count.q.current,
            pre.accum.q.current,
            pre.active.current == 1,
            pre.to_bus.current,
            pre.write_enable.current == 1,
            pre.set_sda.current == 1,
            pre.clear_sda.current == 1,
        );
        I2CTarget {
            from_bus: pre.from_bus.with_next(pre.accum.q.current),
            bus_write: pre.bus_write.with_next(if ctl.bus_write { 1 } else { 0 }),
            stop: pre.stop.with_next(if ctl.stop { 1 } else { 0 }),
            ack: pre.ack.with_next(if ctl.ack { 1 } else { 0 }),
            nack: pre.nack.with_next(if ctl.nack { 1 } else { 0 }),
            write_ok: pre.write_ok.with_next(if ctl.write_ok { 1 } else { 0 }),
            sda_is_high: pre.sda_is_high.with_next(pre.sda_driver.read_data.current),
            scl_is_high: pre.scl_is_high.with_next(pre.scl_driver.read_data.current),
            set_sda: pre.set_sda.with_next(if ctl.set_sda { 1 } else { 0 }),
            clear_sda: pre.clear_sda.with_next(if ctl.clear_sda { 1 } else { 0 }),
            state: Dff {
                clk: pre.state.clk.with_next(pre.clock.current),
                d: pre.state.d.with_next(ctl.state_d),
                ..pre.state
            },
            sda_flop: Dff {
                clk: pre.sda_flop.clk.with_next(pre.clock.current),
                d: pre.sda_flop.d.with_next(ctl.sda_flop_d),
                ..pre.sda_flop
            },
            read_bit: Dff {
                clk: pre.read_bit.clk.with_next(pre.clock.current),
                d: pre.read_bit.d.with_next(ctl.read_bit_d),
                ..pre.read_bit
            },
            count: Dff {
                clk: pre.count.clk.with_next(pre.clock.current),
                d: pre.count.d.with_next(ctl.count_d),
                ..pre.count
            },
            accum: Dff {
                clk: pre.accum.clk.with_next(pre.clock.current),
                d: pre.accum.d.with_next(ctl.accum_d),
                ..pre.accum
            },
            sda_driver: OpenDrainBuffer {
                enable: pre.sda_driver.enable.with_next(pre.sda_flop.q.current),
                bus: pre.sda_driver.bus.with_next(pre.sda.current),
                ..pre.sda_driver
            },
            scl_driver: OpenDrainBuffer {
                enable: pre.scl_driver.enable.with_next(0),
                bus: pre.scl_driver.bus.with_next(pre.scl.current),
                ..pre.scl_driver
            },
            ..pre
        }
    }
}

impl Block for I2CTarget {
    type V = Self;

    open spec fn view_b(self) -> Self {
        self
    }

    open spec fn wf(self) -> bool {
        &&& self.sda.wf() && self.scl.wf() && self.clock.wf() && self.from_bus.wf()
        &&& self.bus_write.wf() && self.active.wf() && self.stop.wf() && self.to_bus.wf()
        &&& self.write_enable.wf() && self.ack.wf() && self.nack.wf() && self.write_ok.wf()
        &&& self.state.wf() && self.sda_flop.wf() && self.read_bit.wf() && self.count.wf()
        &&& self.accum.wf() && self.sda_driver.wf() && self.scl_driver.wf()
        &&& self.sda_is_high.wf() && self.scl_is_high.wf() && self.set_sda.wf()
        &&& self.clear_sda.wf()
    }

    open spec fn step(pre: Self) -> Self {
        let w = Self::wired(pre);
        I2CTarget {
            state: <Dff<4> as Block>::step(w.state),
            sda_flop: <Dff<1> as Block>::step(w.sda_flop),
            read_bit: <Dff<1> as Block>::step(w.read_bit),
            count: <Dff<4> as Block>::step(w.count),
            accum: <Dff<8> as Block>::step(w.accum),
            sda_driver: <OpenDrainBuffer as Block>::step(w.sda_driver),
            scl_driver: <OpenDrainBuffer as Block>::step(w.scl_driver),
            ..w
        }
    }

    open spec fn latched(pre: Self) -> Self {
        I2CTarget {
            sda: pre.sda.latched(),
            scl: pre.scl.latched(),
            clock: pre.clock.latched(),
            from_bus: pre.from_bus.latched(),
            bus_write: pre.bus_write.latched(),
            active: pre.active.latched(),
            stop: pre.stop.latched(),
            to_bus: pre.to_bus.latched(),
            write_enable: pre.write_enable.latched(),
            ack: pre.ack.latched(),
            nack: pre.nack.latched(),
            write_ok: pre.write_ok.latched(),
            state: <Dff<4> as Block>::latched(pre.state),
            sda_flop: <Dff<1> as Block>::latched(pre.sda_flop),
            read_bit: <Dff<1> as Block>::latched(pre.read_bit),
            count: <Dff<4> as Block>::latched(pre.count),
            accum: <Dff<8> as Block>::latched(pre.accum),
            sda_driver: <OpenDrainBuffer as Block>::latched(pre.sda_driver),
            scl_driver: <OpenDrainBuffer as Block>::latched(pre.scl_driver),
            sda_is_high: pre.sda_is_high.latched(),
            scl_is_high: pre.scl_is_high.latched(),
            set_sda: pre.set_sda.latched(),
            clear_sda: pre.clear_sda.latched(),
        }
    }

    open spec fn snap(s: Self) -> Seq<u64> {
        seq![
            s.sda.current,
            s.scl.current,
            s.clock.current,
            s.from_bus.current,
            s.bus_write.current,
            s.active.current,
            s.stop.current,
            s.to_bus.current,
            s.write_enable.current,
            s.ack.current,
            s.nack.current,
            s.write_ok.current,
        ] + <Dff<4> as Block>::snap(s.state) + <Dff<1> as Block>::snap(s.sda_flop) + <Dff<
            1,
        > as Block>::snap(s.read_bit) + <Dff<4> as Block>::snap(s.count) + <Dff<8> as Block>::snap(
            s.accum,
        ) + OpenDrainBuffer::snap(s.sda_driver) + OpenDrainBuffer::snap(s.scl_driver) + seq![
            s.sda_is_high.current,
            s.scl_is_high.current,
            s.set_sda.current,
            s.clear_sda.current,
        ]
    }

    open spec fn with_clock(pre: Self, level: bool) -> Self {
        I2CTarget { clock: pre.clock.with_next(if level { 1 } else { 0 }), ..pre }
    }

    open spec fn describe_v(s: Self, path: Seq<char>, d: CircuitDescV) -> CircuitDescV {
        let base = d.sigs.len() as int;
        let d1 = d.with_sig(path + "."@ + "sda"@, 1, s.sda.dir, s.sda.connected, false).with_sig(
            path + "."@ + "scl"@,
            1,
            s.scl.dir,
            s.scl.connected,
            false,
        ).with_sig(path + "."@ + "clock"@, 1, s.clock.dir, s.clock.connected, false).with_sig(
            path + "."@ + "from_bus"@,
            8,
            s.from_bus.dir,
            s.from_bus.connected,
            false,
        ).with_sig(path + "."@ + "bus_write"@, 1, s.bus_write.dir, s.bus_write.connected, false)
            .with_sig(path + "."@ + "active"@, 1, s.active.dir, s.active.connected, false)
            .with_sig(path + "."@ + "stop"@, 1, s.stop.dir, s.stop.connected, false)
            .with_sig(path + "."@ + "to_bus"@, 8, s.to_bus.dir, s.to_bus.connected, false)
            .with_sig(path + "."@ + "write_enable"@, 1, s.write_enable.dir,
            s.write_enable.connected, false)
            .with_sig(path + "."@ + "ack"@, 1, s.ack.dir, s.ack.connected, false)
            .with_sig(path + "."@ + "nack"@, 1, s.nack.dir, s.nack.connected, false)
            .with_sig(path + "."@ + "write_ok"@, 1, s.write_ok.dir, s.write_ok.connected, false);
        let d2 = <Dff<4> as Block>::describe_v(s.state, path + "."@ + "state"@, d1);
        let d3 = <Dff<1> as Block>::describe_v(s.sda_flop, path + "."@ + "sda_flop"@, d2);
        let d4 = <Dff<1> as Block>::describe_v(s.read_bit, path + "."@ + "read_bit"@, d3);
        let d5 = <Dff<4> as Block>::describe_v(s.count, path + "."@ + "count"@, d4);
        let d6 = <Dff<8> as Block>::describe_v(s.accum, path + "."@ + "accum"@, d5);
        let d7 = OpenDrainBuffer::describe_v(s.sda_driver, path + "."@ + "sda_driver"@, d6);
        let d8 = OpenDrainBuffer::describe_v(s.scl_driver, path + "."@ + "scl_driver"@, d7);
        let d9 = d8.with_sig(path + "."@ + "sda_is_high"@, 1, s.sda_is_high.dir,
            s.sda_is_high.connected, false)
            .with_sig(path + "."@ + "scl_is_high"@, 1, s.scl_is_high.dir,
            s.scl_is_high.connected, false)
            .with_sig(path + "."@ + "set_sda"@, 1, s.set_sda.dir, s.set_sda.connected, false)
            .with_sig(path + "."@ + "clear_sda"@, 1, s.clear_sda.dir, s.clear_sda.connected,
            false);
        d9.with_link(base + 2, base + 12).with_link(base + 2, base + 16).with_link(
            base + 2,
            base + 20,
        ).with_link(base + 2, base + 24).with_link(base + 2, base + 28).with_link(
            base,
            base + 33,
        ).with_link(base + 1, base + 36).with_link(base + 12 + 2, base + 13).with_link(
            base + 12 + 2,
            base + 17,
        ).with_link(base + 12 + 2, base + 21).with_link(base + 12 + 2, base + 25).with_link(
            base + 12 + 2,
            base + 29,
        ).with_link(base + 12 + 2, base + 32).with_link(base + 12 + 2, base + 35)
    }

    #[verifier::spinoff_prover]
    #[verifier::rlimit(100)]
    fn update(&mut self) {
        let ghost pre = *self;
        let v = self.sda.val();
        self.sda_driver.bus.set_next(v);
        let v = self.scl.val();
        self.scl_driver.bus.set_next(v);
        let v = self.sda_flop.q.val();
        self.sda_driver.enable.set_next(v);
        self.scl_driver.enable.set_next(0);
        proof {
            vstd::arithmetic::power2::lemma2_to64();
        }
        let ctl = i2c_ctl_exec(
            self.state.q.val(),
            self.sda_is_high.val() == 1,
            self.scl_is_high.val() == 1,
            self.sda_flop.q.val(),
            self.read_bit.q.val(),
            self.count.q.val(),
            self.accum.q.val(),
            self.active.val() == 1,
            self.to_bus.val(),
            self.write_enable.val() == 1,
            self.set_sda.val() == 1,
            self.clear_sda.val() == 1,
        );
        let v = self.accum.q.val();
        self.from_bus.set_next(v);
        self.bus_write.set_bool(ctl.bus_write);
        self.stop.set_bool(ctl.stop);
        self.ack.set_bool(ctl.ack);
        self.nack.set_bool(ctl.nack);
        self.write_ok.set_bool(ctl.write_ok);
        let v = self.sda_driver.read_data.val();
        self.sda_is_high.set_next(v);
        let v = self.scl_driver.read_data.val();
        self.scl_is_high.set_next(v);
        self.set_sda.set_bool(ctl.set_sda);
        self.clear_sda.set_bool(ctl.clear_sda);
        let c = self.clock.val();
        self.state.clk.set_next(c);
        self.state.d.set_next(ctl.state_d);
        self.sda_flop.clk.set_next(c);
        self.sda_flop.d.set_next(ctl.sda_flop_d);
        self.read_bit.clk.set_next(c);
        self.read_bit.d.set_next(ctl.read_bit_d);
        self.count.clk.set_next(c);
        self.count.d.set_next(ctl.count_d);
        self.accum.clk.set_next(c);
        self.accum.d.set_next(ctl.accum_d);
        self.state.update();
        self.sda_flop.update();
        self.read_bit.update();
        self.count.update();
        self.accum.update();
        self.sda_driver.update();
        self.scl_driver.update();
        proof {
            assert(*self == Self::step(pre));
        }
    }

    fn commit(&mut self) {
        self.sda.commit();
        self.scl.commit();
        self.clock.commit();
        self.from_bus.commit();
        self.bus_write.commit();
        self.active.commit();
        self.stop.commit();
        self.to_bus.commit();
        self.write_enable.commit();
        self.ack.commit();
        self.nack.commit();
        self.write_ok.commit();
        self.state.commit();
        self.sda_flop.commit();
        self.read_bit.commit();
        self.count.commit();
        self.accum.commit();
        self.sda_driver.commit();
        self.scl_driver.commit();
        self.sda_is_high.commit();
        self.scl_is_high.commit();
        self.set_sda.commit();
        self.clear_sda.commit();
    }

    #[verifier::spinoff_prover]
    #[verifier::rlimit(100)]
    fn settled(&self) -> (r: bool) {
        let r = self.sda.is_settled() && self.scl.is_settled() && self.clock.is_settled()
            && self.from_bus.is_settled() && self.bus_write.is_settled()
            && self.active.is_settled() && self.stop.is_settled() && self.to_bus.is_settled()
            && self.write_enable.is_settled() && self.ack.is_settled() && self.nack.is_settled()
            && self.write_ok.is_settled() && self.state.settled() && self.sda_flop.settled()
            && self.read_bit.settled() && self.count.settled() && self.accum.settled()
            && self.sda_driver.settled() && self.scl_driver.settled()
            && self.sda_is_high.is_settled() && self.scl_is_high.is_settled()
            && self.set_sda.is_settled() && self.clear_sda.is_settled();
        proof {
            if r {
                assert(Self::latched(*self) == *self);
            }
        }
        r
    }

    fn set_clock(&mut self, level: bool) {
        self.clock.set_bool(level);
    }

    fn snapshot_into(&self, out: &mut Vec<u64>) {
        out.push(self.sda.current);
        out.push(self.scl.current);
        out.push(self.clock.current);
        out.push(self.from_bus.current);
        out.push(self.bus_write.current);
        out.push(self.active.current);
        out.push(self.stop.current);
        out.push(self.to_bus.current);
        out.push(self.write_enable.current);
        out.push(self.ack.current);
        out.push(self.nack.current);
        out.push(self.write_ok.current);
        self.state.snapshot_into(out);
        self.sda_flop.snapshot_into(out);
        self.read_bit.snapshot_into(out);
        self.count.snapshot_into(out);
        self.accum.snapshot_into(out);
        self.sda_driver.snapshot_into(out);
        self.scl_driver.snapshot_into(out);
        out.push(self.sda_is_high.current);
        out.push(self.scl_is_high.current);
        out.push(self.set_sda.current);
        out.push(self.clear_sda.current);
        proof {
            assert(out@ =~= old(out)@ + Self::snap(*self));
        }
    }

    #[verifier::spinoff_prover]
    #[verifier::rlimit(100)]
    fn describe(&self, path: &str, d: &mut CircuitDesc) {
        let base = d.add_signal(path, "sda", &self.sda, false);
        let _ = d.add_signal(path, "scl", &self.scl, false);
        let i_clock = d.add_signal(path, "clock", &self.clock, false);
        let _ = d.add_signal(path, "from_bus", &self.from_bus, false);
        let _ = d.add_signal(path, "bus_write", &self.bus_write, false);
        let _ = d.add_signal(path, "active", &self.active, false);
        let _ = d.add_signal(path, "stop", &self.stop, false);
        let _ = d.add_signal(path, "to_bus", &self.to_bus, false);
        let _ = d.add_signal(path, "write_enable", &self.write_enable, false);
        let _ = d.add_signal(path, "ack", &self.ack, false);
        let _ = d.add_signal(path, "nack", &self.nack, false);
        let _ = d.add_signal(path, "write_ok", &self.write_ok, false);
        let sub = crate::graph::sub_path(path, "state");
        let b_state = d.sigs.len();
        let ghost v0 = d.view_d();
        self.state.describe(sub.as_str(), d);
        let ghost sub0 = sub@;
        let sub = crate::graph::sub_path(path, "sda_flop");
        let ghost v1 = d.view_d();
        self.sda_flop.describe(sub.as_str(), d);
        let ghost sub1 = sub@;
        let sub = crate::graph::sub_path(path, "read_bit");
        let ghost v2 = d.view_d();
        self.read_bit.describe(sub.as_str(), d);
        let ghost sub2 = sub@;
        let sub = crate::graph::sub_path(path, "count");
        let ghost v3 = d.view_d();
        self.count.describe(sub.as_str(), d);
        let ghost sub3 = sub@;
        let sub = crate::graph::sub_path(path, "accum");
        let ghost v4 = d.view_d();
        self.accum.describe(sub.as_str(), d);
        let ghost sub4 = sub@;
        let sub = crate::graph::sub_path(path, "sda_driver");
        let ghost v5 = d.view_d();
        self.sda_driver.describe(sub.as_str(), d);
        let ghost sub5 = sub@;
        let sub = crate::graph::sub_path(path, "scl_driver");
        let ghost v6 = d.view_d();
        self.scl_driver.describe(sub.as_str(), d);
        let ghost sub6 = sub@;
        let ghost v7 = d.view_d();
        let _ = d.add_signal(path, "sda_is_high", &self.sda_is_high, false);
        let _ = d.add_signal(path, "scl_is_high", &self.scl_is_high, false);
        let _ = d.add_signal(path, "set_sda", &self.set_sda, false);
        let _ = d.add_signal(path, "clear_sda", &self.clear_sda, false);
        let n = d.sigs.len();
        proof {
            assert(v1 == <Dff<4> as Block>::describe_v(self.state, sub0, v0));
            assert(v1.sigs.len() == v0.sigs.len() + 4);
            assert(v2 == <Dff<1> as Block>::describe_v(self.sda_flop, sub1, v1));
            assert(v2.sigs.len() == v1.sigs.len() + 4);
            assert(v3 == <Dff<1> as Block>::describe_v(self.read_bit, sub2, v2));
            assert(v3.sigs.len() == v2.sigs.len() + 4);
            assert(v4 == <Dff<4> as Block>::describe_v(self.count, sub3, v3));
            assert(v4.sigs.len() == v3.sigs.len() + 4);
            assert(v5 == <Dff<8> as Block>::describe_v(self.accum, sub4, v4));
            assert(v5.sigs.len() == v4.sigs.len() + 4);
            assert(v6 == OpenDrainBuffer::describe_v(self.sda_driver, sub5, v5));
            assert(v6.sigs.len() == v5.sigs.len() + 3);
            assert(v7 == OpenDrainBuffer::describe_v(self.scl_driver, sub6, v6));
            assert(v7.sigs.len() == v6.sigs.len() + 3);
            assert(b_state == base + 12);
            assert(n == base + 42);
        }
        d.add_link(i_clock, base + 12);
        d.add_link(i_clock, base + 16);
        d.add_link(i_clock, base + 20);
        d.add_link(i_clock, base + 24);
        d.add_link(i_clock, base + 28);
        d.add_link(base, base + 33);
        d.add_link(base + 1, base + 36);
        d.add_link(base + 14, base + 13);
        d.add_link(base + 14, base + 17);
        d.add_link(base + 14, base + 21);
        d.add_link(base + 14, base + 25);
        d.add_link(base + 14, base + 29);
        d.add_link(base + 14, base + 32);
        d.add_link(base + 14, base + 35);
        proof {
            assert(d.view_d().sigs =~= Self::describe_v(*self, path@, old(d).view_d()).sigs);
            assert(d.view_d().links =~= Self::describe_v(*self, path@, old(d).view_d()).links);
            assert(d.view_d().deps =~= Self::describe_v(*self, path@, old(d).view_d()).deps);
            assert(d.view_d() =~= Self::describe_v(*self, path@, old(d).view_d()));
        }
    }

    #[verifier::spinoff_prover]
    #[verifier::rlimit(100)]
    proof fn lemma_step_idempotent(s: Self) {
        let v1 = Self::step(s);
        let v2 = Self::step(v1);
        assert(v2.state == v1.state);
        assert(v2.sda_flop == v1.sda_flop);
        assert(v2.read_bit == v1.read_bit);
        assert(v2.count == v1.count);
        assert(v2.accum == v1.accum);
        assert(v2.sda_driver == v1.sda_driver);
        assert(v2.scl_driver == v1.scl_driver);
        assert(v2 == v1);
    }

    proof fn lemma_step_keeps_current(s: Self) {
        assert(Self::snap(Self::step(s)) =~= Self::snap(s));
    }
}

} // verus!
