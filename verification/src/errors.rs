use vstd::prelude::*;

verus! {

/// The error taxonomy of the library.  Connectivity and analyzer errors are
/// reported before a simulation starts; convergence and assertion failures
/// abort the active run.
#[derive(Clone, Debug)]
pub enum HdlError {
    /// A signal that needs a driver has none; carries the signal's path.
    UnconnectedSignal { path: String },
    /// A combinational cycle; carries the paths of the participating signals.
    LogicLoop { signals: Vec<String> },
    /// The settle loop did not reach a fixed point within its iteration cap.
    NonConvergence { iterations: u32 },
    /// The worst-case combinational depth exceeds the configured bound.
    TimingViolation { depth: usize, bound: usize },
    /// A bit index at or beyond the declared width.
    IndexError { index: usize, width: usize },
    /// An expected-value check inside a testbench process failed.
    AssertionFailure { cycle: u64 },
}

} // verus!
