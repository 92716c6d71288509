//! Waveform trace utilities: timestamped values, change compression, and a
//! reference clock trace.  The kernel's per-cycle snapshots become
//! value-change streams by keeping only the samples where a value differs
//! from the one before it.

use vstd::prelude::*;

verus! {

/// One timestamped sample of a signal's raw value.
#[derive(Clone, Copy, Debug, PartialEq, Eq, Structural)]
pub struct TimedValue {
    /// Simulation time units.
    pub time: u64,
    /// The sampled raw value.
    pub value: u64,
}

/// The suffix of `s` from `i` on, compressed against the previous kept
/// value `prev`: only samples differing from their predecessor survive.
pub open spec fn changes_rec(s: Seq<TimedValue>, prev: u64, i: int) -> Seq<TimedValue>
    decreases s.len() - i,
{
    if i < 0 || i >= s.len() {
        Seq::<TimedValue>::empty()
    } else if s[i].value != prev {
        seq![s[i]] + changes_rec(s, s[i].value, i + 1)
    } else {
        changes_rec(s, prev, i + 1)
    }
}

/// The change-compressed form of a sample stream: its first sample followed
/// by every sample whose value differs from the one kept before it.
pub open spec fn changes_spec(s: Seq<TimedValue>) -> Seq<TimedValue> {
    if s.len() == 0 {
        Seq::<TimedValue>::empty()
    } else {
        seq![s[0]] + changes_rec(s, s[0].value, 0)
    }
}

/// Compress a sample stream to its value changes.
pub fn changes(vals: &Vec<TimedValue>) -> (r: Vec<TimedValue>)
    ensures
        r@ == changes_spec(vals@),
{
    let mut ret: Vec<TimedValue> = Vec::new();
    if vals.len() == 0 {
        proof {
            assert(ret@ =~= changes_spec(vals@));
        }
        return ret;
    }
    let first = vals[0];
    ret.push(first);
    let mut prev: u64 = first.value;
    let mut i: usize = 0;
    while i < vals.len()
        invariant
            vals@.len() > 0,
            i <= vals@.len(),
            changes_spec(vals@) == ret@ + changes_rec(vals@, prev, i as int),
        decreases vals@.len() - i,
    {
        let ghost before = ret@;
        if vals[i].value != prev {
            ret.push(vals[i]);
            prev = vals[i].value;
            proof {
                assert(ret@ + changes_rec(vals@, prev, i + 1) =~= before + (seq![vals@[i as int]]
                    + changes_rec(vals@, prev, i + 1)));
            }
        }
        i = i + 1;
    }
    proof {
        assert(ret@ =~= ret@ + changes_rec(vals@, prev, vals@.len() as int));
    }
    ret
}

/// A reference clock trace: a thousand alternating samples, one per half
/// period, starting high at time zero.
pub fn make_clock(period: u64) -> (r: Vec<TimedValue>)
    requires
        period * 999 <= u64::MAX,
    ensures
        r@.len() == 1000,
        forall|i: int|
            0 <= i < 1000 ==> (#[trigger] r@[i]).time == period * i && r@[i].value == (if i % 2
                == 0 {
                1u64
            } else {
                0u64
            }),
{
    let mut r: Vec<TimedValue> = Vec::new();
    let mut x: u64 = 0;
    while x < 1000
        invariant
            period * 999 <= u64::MAX,
            x <= 1000,
            r@.len() == x,
            forall|i: int|
                0 <= i < x ==> (#[trigger] r@[i]).time == period * i && r@[i].value == (if i % 2
                    == 0 {
                    1u64
                } else {
                    0u64
                }),
        decreases 1000 - x,
    {
        let v: u64 = if x % 2 == 0 {
            1
        } else {
            0
        };
        proof {
            assert(period * x <= period * 999) by (nonlinear_arith)
                requires
                    x <= 999,
            ;
        }
        r.push(TimedValue { time: period * x, value: v });
        x = x + 1;
    }
    r
}

} // verus!
