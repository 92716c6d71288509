//! The simulation kernel: virtual time, clock driving, cooperatively
//! scheduled testbench processes, and waveform traces.
//!
//! Each virtual cycle raises the clock, settles the combinational logic,
//! lowers the clock and settles again; registers load on the rising edge.
//! Testbench processes run once per settled cycle, never preempting one
//! another, and all observe the identical post-commit signal state.

use vstd::prelude::*;

use crate::block::{settle, settle_rec, Block};
use crate::errors::HdlError;

verus! {

/// The lifecycle of one simulation run.
#[derive(Clone, Copy, Debug, PartialEq, Eq, Structural)]
pub enum SimState {
    /// The graph is still under construction and cannot be simulated.
    Building,
    /// The connectivity check has verified driver coverage.
    Connected,
    /// The kernel is advancing virtual time.
    Running,
    /// Every process completed, or the cycle budget ran out cleanly.
    Done,
    /// An assertion failed or the settle loop did not converge.
    Failed,
}

/// One full clock cycle as a mathematical function: raise the clock and
/// settle, lower it and settle.  `None` means some settle pass ran out of
/// fuel.
pub open spec fn cycle_rec<B: Block>(s: B::V, cap: nat) -> Option<B::V> {
    match settle_rec::<B>(B::with_clock(s, true), cap) {
        Option::None => None::<B::V>,
        Option::Some(hi) => settle_rec::<B>(B::with_clock(hi, false), cap),
    }
}

/// The block's state after `k` clock cycles.
pub open spec fn run_rec<B: Block>(s: B::V, k: nat, cap: nat) -> Option<B::V>
    decreases k,
{
    if k == 0 {
        Some(s)
    } else {
        match cycle_rec::<B>(s, cap) {
            Option::None => None::<B::V>,
            Option::Some(s2) => run_rec::<B>(s2, (k - 1) as nat, cap),
        }
    }
}

/// The trace of `k` cycles: one full snapshot of current values per settled
/// cycle.
pub open spec fn trace_rec<B: Block>(s: B::V, k: nat, cap: nat) -> Option<Seq<Seq<u64>>>
    decreases k,
{
    if k == 0 {
        Some(Seq::<Seq<u64>>::empty())
    } else {
        match cycle_rec::<B>(s, cap) {
            Option::None => None::<Seq<Seq<u64>>>,
            Option::Some(s2) => match trace_rec::<B>(s2, (k - 1) as nat, cap) {
                Option::None => None::<Seq<Seq<u64>>>,
                Option::Some(t) => Some(seq![<B as Block>::snap(s2)] + t),
            },
        }
    }
}

/// Advance one clock cycle: rising edge, settle, falling edge, settle.
pub fn run_cycle<B: Block>(b: &mut B, cap: u32) -> (r: Result<(), HdlError>)
    requires
        old(b).wf(),
    ensures
        final(b).wf(),
        match r {
            Ok(_) => cycle_rec::<B>(old(b).view_b(), cap as nat) == Some(final(b).view_b()),
            Err(e) => cycle_rec::<B>(old(b).view_b(), cap as nat) is None && e is NonConvergence,
        },
{
    b.set_clock(true);
    match settle(b, cap) {
        Ok(_) => {},
        Err(e) => {
            return Err(e);
        },
    }
    b.set_clock(false);
    match settle(b, cap) {
        Ok(_) => {},
        Err(e) => {
            return Err(e);
        },
    }
    Ok(())
}

/// Simulate `k` cycles and record the per-cycle snapshot trace.
pub fn run_cycles<B: Block>(b: &mut B, k: u32, cap: u32) -> (r: Result<
    Vec<Vec<u64>>,
    HdlError,
>)
    requires
        old(b).wf(),
    ensures
        final(b).wf(),
        match r {
            Ok(t) => run_rec::<B>(old(b).view_b(), k as nat, cap as nat) == Some(
                final(b).view_b(),
            ) && Some(t@.map_values(|v: Vec<u64>| v@)) == trace_rec::<B>(
                old(b).view_b(),
                k as nat,
                cap as nat,
            ),
            Err(e) => trace_rec::<B>(old(b).view_b(), k as nat, cap as nat) is None
                && e is NonConvergence,
        },
{
    let ghost orig = old(b).view_b();
    let mut t: Vec<Vec<u64>> = Vec::new();
    let mut i: u32 = 0;
    while i < k
        invariant
            orig == old(b).view_b(),
            b.wf(),
            i <= k,
            run_rec::<B>(orig, k as nat, cap as nat) == run_rec::<B>(
                b.view_b(),
                (k - i) as nat,
                cap as nat,
            ),
            trace_rec::<B>(orig, k as nat, cap as nat) matches Some(full) ==> trace_rec::<B>(
                b.view_b(),
                (k - i) as nat,
                cap as nat,
            ) matches Some(rest) && full == t@.map_values(|v: Vec<u64>| v@) + rest,
            trace_rec::<B>(orig, k as nat, cap as nat) is None ==> trace_rec::<B>(
                b.view_b(),
                (k - i) as nat,
                cap as nat,
            ) is None,
        decreases k - i,
    {
        let ghost pre = b.view_b();
        match run_cycle(b, cap) {
            Ok(_) => {},
            Err(e) => {
                proof {
                    assert(trace_rec::<B>(pre, (k - i) as nat, cap as nat) is None);
                }
                return Err(e);
            },
        }
        let mut snap_row: Vec<u64> = Vec::new();
        b.snapshot_into(&mut snap_row);
        let ghost t_before = t@;
        t.push(snap_row);
        proof {
            assert(t@.map_values(|v: Vec<u64>| v@) =~= t_before.map_values(|v: Vec<u64>| v@)
                + seq![<B as Block>::snap(b.view_b())]);
            if trace_rec::<B>(orig, k as nat, cap as nat) is Some {
                assert(trace_rec::<B>(pre, (k - i) as nat, cap as nat) matches Some(rest)
                    ==> rest == seq![<B as Block>::snap(b.view_b())] + trace_rec::<B>(
                    b.view_b(),
                    (k - i - 1) as nat,
                    cap as nat,
                )->Some_0);
                assert(t_before.map_values(|v: Vec<u64>| v@) + (seq![
                    <B as Block>::snap(b.view_b()),
                ] + trace_rec::<B>(b.view_b(), (k - i - 1) as nat, cap as nat)->Some_0)
                    =~= t@.map_values(|v: Vec<u64>| v@) + trace_rec::<B>(
                    b.view_b(),
                    (k - i - 1) as nat,
                    cap as nat,
                )->Some_0);
            }
        }
        i = i + 1;
    }
    proof {
        if trace_rec::<B>(orig, k as nat, cap as nat) is Some {
            assert(trace_rec::<B>(orig, k as nat, cap as nat)->Some_0 =~= t@.map_values(
                |v: Vec<u64>| v@,
            ));
        }
        assert(trace_rec::<B>(orig, k as nat, cap as nat) is Some);
    }
    Ok(t)
}

/// Determinism law: a block simulated for `k` cycles and then re-simulated
/// from the same initial state for the same `k` cycles produces an identical
/// trace.
pub proof fn lemma_trace_deterministic<B: Block>(s1: B::V, s2: B::V, k: nat, cap: nat)
    requires
        s1 == s2,
    ensures
        trace_rec::<B>(s1, k, cap) == trace_rec::<B>(s2, k, cap),
        run_rec::<B>(s1, k, cap) == run_rec::<B>(s2, k, cap),
{
}

/// What a testbench process reports when polled.
#[derive(Clone, Copy, Debug, PartialEq, Eq, Structural)]
pub enum ProcessStatus {
    /// Still waiting or still driving stimulus.
    Running,
    /// The scripted scenario completed.
    Done,
    /// An expected-value check failed.
    Failed,
}

/// A cooperatively scheduled testbench process.  The kernel polls it once
/// per settled cycle; it reads current signal values, writes next values of
/// the signals it drives, and suspends by returning.  Writes must go through
/// the masking signal methods so the block stays well-formed.
pub trait TestBench<B: Block> {
    /// One scheduling slot: observe the post-commit state of cycle `cycle`
    /// and drive stimulus for the next one.
    fn poll(&mut self, b: &mut B, cycle: u64) -> (r: ProcessStatus)
        requires
            old(b).wf(),
        ensures
            final(b).wf(),
    ;
}

/// The outcome of a kernel run.
#[derive(Clone, Debug)]
pub struct SimReport {
    /// `Done` or `Failed`.
    pub state: SimState,
    /// Settled cycles executed.
    pub cycles: u64,
    /// The failure, if the run failed.
    pub error: Option<HdlError>,
}

/// Drive the block until every process is done or the cycle budget is
/// exhausted, polling every process once per settled cycle in registration
/// order.  The run fails on a process assertion failure or when the settle
/// loop exceeds its iteration cap.
pub fn run_testbench<B: Block, P: TestBench<B>>(
    b: &mut B,
    procs: &mut Vec<P>,
    max_cycles: u64,
    cap: u32,
) -> (r: SimReport)
    requires
        old(b).wf(),
    ensures
        final(b).wf(),
        final(procs)@.len() == old(procs)@.len(),
        r.state == SimState::Done || r.state == SimState::Failed,
        r.state == SimState::Done <==> r.error is None,
        r.state == SimState::Failed ==> (r.error matches Some(e) && (e is NonConvergence
            || e is AssertionFailure)),
        r.cycles <= max_cycles,
{
    let n = procs.len();
    let mut done: Vec<bool> = Vec::new();
    let mut j: usize = 0;
    while j < n
        invariant
            j <= n,
            done@.len() == j,
        decreases n - j,
    {
        done.push(false);
        j = j + 1;
    }
    let mut cycle: u64 = 0;
    while cycle < max_cycles
        invariant
            b.wf(),
            n == old(procs)@.len(),
            procs@.len() == n,
            done@.len() == n,
            cycle <= max_cycles,
        decreases max_cycles - cycle,
    {
        let mut i: usize = 0;
        let mut all_done = true;
        while i < n
            invariant
                b.wf(),
                n == old(procs)@.len(),
                procs@.len() == n,
                done@.len() == n,
                i <= n,
                cycle < max_cycles,
            decreases n - i,
        {
            if !done[i] {
                let mut p = procs.remove(i);
                let st = p.poll(b, cycle);
                procs.insert(i, p);
                match st {
                    ProcessStatus::Running => {
                        all_done = false;
                    },
                    ProcessStatus::Done => {
                        done.set(i, true);
                    },
                    ProcessStatus::Failed => {
                        return SimReport {
                            state: SimState::Failed,
                            cycles: cycle,
                            error: Some(HdlError::AssertionFailure { cycle }),
                        };
                    },
                }
            }
            i = i + 1;
        }
        if all_done {
            return SimReport { state: SimState::Done, cycles: cycle, error: None };
        }
        match run_cycle(b, cap) {
            Ok(_) => {},
            Err(e) => {
                return SimReport { state: SimState::Failed, cycles: cycle, error: Some(e) };
            },
        }
        cycle = cycle + 1;
    }
    SimReport { state: SimState::Done, cycles: max_cycles, error: None }
}

} // verus!
