//! High-level-synthesis building blocks: the register-mapped SoC bus, the
//! address bridge, and the narrow and wide data ports behind it.

pub mod bridge;
pub mod bus;
pub mod ports;
