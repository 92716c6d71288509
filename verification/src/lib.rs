//! A hardware-description and simulation library: fixed-width bit vectors,
//! signals with current/next double buffering, synchronous logic blocks, an
//! event-driven simulation kernel, and static analyzers (connectivity, logic
//! loops, timing) that run before synthesis.

pub mod analysis;
pub mod block;
pub mod errors;
pub mod graph;
pub mod hls;
pub mod short_bit_vec;
pub mod signal;
pub mod synth;
pub mod sim;
pub mod trace;
pub mod verilog;
pub mod widgets;
