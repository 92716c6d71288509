//! The two halves of a two-wire open-drain bus: the driver side commands
//! the data and clock lines low, the receiver side observes their levels.
//! Joining a driver to a receiver makes each pair one wire.

use vstd::prelude::*;

use crate::widgets::open_drain::{OpenDrainDriver, OpenDrainReceiver};

verus! {

/// The commanding side of a two-wire open-drain bus.
#[derive(Clone, Copy, Debug)]
pub struct I2CBusDriver {
    /// Data line command.
    pub sda: OpenDrainDriver,
    /// Clock line command.
    pub scl: OpenDrainDriver,
}

impl I2CBusDriver {
    /// A driver with both lines released.
    pub fn default() -> (r: Self)
        ensures
            r.sda.enable.wf(),
            r.scl.enable.wf(),
    {
        I2CBusDriver { sda: OpenDrainDriver::default(), scl: OpenDrainDriver::default() }
    }
}

/// The observing side of a two-wire open-drain bus.
#[derive(Clone, Copy, Debug)]
pub struct I2CBusReceiver {
    /// Data line level.
    pub sda: OpenDrainReceiver,
    /// Clock line level.
    pub scl: OpenDrainReceiver,
}

impl I2CBusReceiver {
    /// A receiver seeing both lines released.
    pub fn default() -> (r: Self)
        ensures
            r.sda.line.wf(),
            r.scl.line.wf(),
    {
        I2CBusReceiver { sda: OpenDrainReceiver::default(), scl: OpenDrainReceiver::default() }
    }
}

} // verus!
