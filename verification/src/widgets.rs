//! The standard logic blocks: clocked storage, reset conditioning, edge
//! detection, open-drain buffers and the I2C target.

pub mod auto_reset;
pub mod dff;
pub mod edge_detector;
pub mod i2c_bus;
pub mod i2c_target;
pub mod open_drain;
pub mod reset_sync;
