//! Signals: named, directioned wires with current/next double buffering.
//!
//! A signal holds the settled `current` value that update logic reads, and a
//! pending `next` value that update logic writes.  Only the kernel's commit
//! step copies `next` into `current`.  Values are raw words masked to the
//! signal's width `W` (`1 <= W <= 64`).

use vstd::prelude::*;
use vstd::arithmetic::power2::*;
use vstd::arithmetic::div_mod::*;
use vstd::bits::*;

verus! {

/// Who may drive a signal.
#[derive(Clone, Copy, Debug, PartialEq, Eq, Structural)]
pub enum Direction {
    /// Driven from outside the owning component.
    In,
    /// Driven by the owning component, readable outside.
    Out,
    /// Tri-state: driven by exactly one side at a time.
    InOut,
    /// Internal wire of the owning component.
    Local,
}

/// The value `v` reduced to `w` bits.
pub open spec fn masked(v: u64, w: nat) -> u64 {
    (v as nat % pow2(w)) as u64
}

/// The low-`w`-bits mask as a word, for `w <= 64`.
pub fn mask_w(w: usize) -> (r: u64)
    requires
        w <= 64,
    ensures
        r as nat == pow2(w as nat) - 1,
        r as nat == low_bits_mask(w as nat),
{
    proof {
        lemma2_to64();
        lemma2_to64_rest();
        lemma_pow2_pos(w as nat);
        if w < 64 {
            lemma_pow2_strictly_increases(w as nat, 64);
        }
    }
    if w == 64 {
        proof {
            assert(!0u64 == 0xffff_ffff_ffff_ffffu64) by (bit_vector);
        }
        !0u64
    } else {
        proof {
            assert(1 * pow2(w as nat) == pow2(w as nat));
            lemma_u64_shl_is_mul(1u64, w as u64);
        }
        (1_u64 << (w as u64)) - 1
    }
}

/// Reduce a word to `w` bits.
pub fn mask_to(v: u64, w: usize) -> (r: u64)
    requires
        w <= 64,
    ensures
        r == masked(v, w as nat),
        r < pow2(w as nat),
{
    proof {
        lemma_pow2_pos(w as nat);
        lemma_mod_bound(v as int, pow2(w as nat) as int);
        if w == 64 {
            lemma2_to64();
            lemma2_to64_rest();
            lemma_small_mod(v as nat, pow2(64));
            assert(v & 0xffff_ffff_ffff_ffffu64 == v) by (bit_vector);
        } else {
            lemma_u64_low_bits_mask_is_mod(v, w as nat);
            lemma2_to64();
            lemma2_to64_rest();
            lemma_pow2_strictly_increases(w as nat, 64);
            assert(low_bits_mask(w as nat) < pow2(64));
            assert(v & (low_bits_mask(w as nat) as u64) == v % (pow2(w as nat) as u64));
            assert(v as nat % pow2(w as nat) == (v % (pow2(w as nat) as u64)) as nat);
        }
    }
    v & mask_w(w)
}

/// A directioned wire of width `W` with current/next double buffering.
#[derive(Clone, Copy, Debug)]
pub struct Signal<const W: usize> {
    /// Direction, fixed at construction.
    pub dir: Direction,
    /// The settled value, read by update logic.
    pub current: u64,
    /// The pending value, written by update logic; adopted only by commit.
    pub next: u64,
    /// Marked when the signal is driven from outside the described graph.
    pub connected: bool,
}

impl<const W: usize> Signal<W> {
    /// Width and masking invariant of the two buffered values.
    pub open spec fn wf(self) -> bool {
        &&& 1 <= W <= 64
        &&& self.current < pow2(W as nat)
        &&& self.next < pow2(W as nat)
    }

    /// The signal with its pending value replaced by `v` reduced to `W` bits.
    pub open spec fn with_next(self, v: u64) -> Signal<W> {
        Signal { next: masked(v, W as nat), ..self }
    }

    /// The signal after a commit: the pending value becomes current.
    pub open spec fn latched(self) -> Signal<W> {
        Signal { current: self.next, ..self }
    }

    /// The signal with its external-drive mark set.
    pub open spec fn marked_connected(self) -> Signal<W> {
        Signal { connected: true, ..self }
    }

    /// A fresh signal of the given direction, both buffers zero.
    pub open spec fn zeroed(dir: Direction) -> Signal<W> {
        Signal { dir, current: 0, next: 0, connected: false }
    }

    /// A fresh signal holding zero on both buffers.
    pub fn new(dir: Direction) -> (r: Self)
        requires
            1 <= W <= 64,
        ensures
            r.wf(),
            r.dir == dir,
            r.current == 0,
            r.next == 0,
            !r.connected,
    {
        proof {
            lemma_pow2_pos(W as nat);
        }
        Signal { dir, current: 0, next: 0, connected: false }
    }

    /// The settled value.
    pub fn val(&self) -> (r: u64)
        ensures
            r == self.current,
    {
        self.current
    }

    /// The settled value of a one-bit signal, as a level.
    pub fn val_bool(&self) -> (r: bool)
        ensures
            r == (self.current != 0),
    {
        self.current != 0
    }

    /// Write the pending value, reduced to the signal's width.
    pub fn set_next(&mut self, v: u64)
        requires
            old(self).wf(),
        ensures
            *final(self) == old(self).with_next(v),
            final(self).wf(),
            final(self).next == masked(v, W as nat),
            final(self).current == old(self).current,
    {
        proof {
            lemma_pow2_pos(W as nat);
            lemma_mod_bound(v as int, pow2(W as nat) as int);
        }
        self.next = mask_to(v, W);
    }

    /// Write the pending value of a one-bit signal from a level.
    pub fn set_bool(&mut self, b: bool)
        requires
            old(self).wf(),
            W == 1,
        ensures
            *final(self) == old(self).with_next(if b { 1 } else { 0 }),
            final(self).wf(),
            final(self).next == (if b { 1u64 } else { 0u64 }),
            final(self).current == old(self).current,
    {
        proof {
            lemma2_to64();
            if b {
                lemma_small_mod(1nat, pow2(1));
            } else {
                lemma_small_mod(0nat, pow2(1));
            }
        }
        self.next = if b { 1 } else { 0 };
    }

    /// Mark the signal as driven from outside the described graph.
    pub fn connect(&mut self)
        ensures
            *final(self) == old(self).marked_connected(),
    {
        self.connected = true;
    }

    /// Adopt the pending value as the settled one.
    pub fn commit(&mut self)
        requires
            old(self).wf(),
        ensures
            *final(self) == old(self).latched(),
            final(self).wf(),
    {
        self.current = self.next;
    }

    /// Whether the pending value already equals the settled one.
    pub fn is_settled(&self) -> (r: bool)
        ensures
            r == (self.latched() == *self),
    {
        proof {
            if self.current == self.next {
                assert(self.latched() == *self);
            }
        }
        self.current == self.next
    }
}


/// Bitwise or of two masked words stays masked.
pub fn or_w(a: u64, b: u64, w: usize) -> (r: u64)
    requires
        w <= 64,
        a < pow2(w as nat),
        b < pow2(w as nat),
    ensures
        r == (a | b),
        r < pow2(w as nat),
{
    proof {
        lemma2_to64();
        lemma2_to64_rest();
        if w < 64 {
            lemma_pow2_strictly_increases(w as nat, 64);
            let wu = w as u64;
            assert(1 * pow2(w as nat) == pow2(w as nat));
            lemma_u64_shl_is_mul(1u64, wu);
            assert((a | b) < (1u64 << wu)) by (bit_vector)
                requires
                    a < (1u64 << wu),
                    b < (1u64 << wu),
                    wu < 64,
            ;
        } else {
            assert((a | b) <= 0xffff_ffff_ffff_ffffu64) by (bit_vector);
        }
    }
    a | b
}

/// Left shift with truncation to `w` bits: `(v * 2^sh) mod 2^w`.
pub fn shl_mask(v: u64, sh: usize, w: usize) -> (r: u64)
    requires
        w <= 64,
    ensures
        r as nat == (v as nat * pow2(sh as nat)) % pow2(w as nat),
        r < pow2(w as nat),
{
    proof {
        lemma_pow2_pos(sh as nat);
        lemma_pow2_pos(w as nat);
    }
    if sh >= w {
        proof {
            lemma_pow2_adds((sh - w) as nat, w as nat);
            vstd::arithmetic::mul::lemma_mul_is_associative(
                v as int,
                pow2((sh - w) as nat) as int,
                pow2(w as nat) as int,
            );
            lemma_mod_multiples_basic((v as int) * (pow2((sh - w) as nat) as int), pow2(
                w as nat,
            ) as int);
        }
        0
    } else {
        let low = mask_to(v, w - sh);
        proof {
            lemma2_to64();
            lemma2_to64_rest();
            lemma_pow2_adds(sh as nat, (w - sh) as nat);
            if w < 64 {
                lemma_pow2_strictly_increases(w as nat, 64);
            }
            lemma_pow2_pos((w - sh) as nat);
            assert(low * pow2(sh as nat) < pow2((w - sh) as nat) * pow2(sh as nat)) by (
            nonlinear_arith)
                requires
                    low < pow2((w - sh) as nat),
                    pow2(sh as nat) > 0,
            ;
            assert(pow2(w as nat) == pow2(sh as nat) * pow2((w - sh) as nat));
            vstd::arithmetic::mul::lemma_mul_is_commutative(
                pow2((w - sh) as nat) as int,
                pow2(sh as nat) as int,
            );
            assert(low as nat * pow2(sh as nat) < pow2(w as nat));
            assert(pow2(w as nat) <= 0x1_0000_0000_0000_0000);
            lemma_u64_shl_is_mul(low, sh as u64);
            lemma_truncate_middle(v as int, pow2(sh as nat) as int, pow2((w - sh) as nat) as int);
            assert((pow2(sh as nat) * (v as nat)) % (pow2(sh as nat) * pow2((w - sh) as nat))
                == pow2(sh as nat) * ((v as nat) % pow2((w - sh) as nat)));
            assert((v as nat * pow2(sh as nat)) % pow2(w as nat) == pow2(sh as nat) * (low as nat));
        }
        low << (sh as u64)
    }
}

/// Right shift: `v / 2^sh`, zeroes shifted in.
pub fn shr_w(v: u64, sh: usize) -> (r: u64)
    ensures
        r as nat == (v as nat) / pow2(sh as nat),
{
    if sh >= 64 {
        proof {
            lemma2_to64();
            lemma2_to64_rest();
            if sh > 64 {
                lemma_pow2_strictly_increases(64, sh as nat);
            }
            lemma_basic_div(v as int, pow2(sh as nat) as int);
        }
        0
    } else {
        proof {
            lemma_u64_shr_is_div(v, sh as u64);
        }
        v >> (sh as u64)
    }
}

/// Wrapping increment within `w` bits: `(v + 1) mod 2^w`.
pub fn incr_w(v: u64, w: usize) -> (r: u64)
    requires
        w <= 64,
        v < pow2(w as nat),
    ensures
        r as nat == ((v as nat) + 1) % pow2(w as nat),
        r < pow2(w as nat),
{
    proof {
        lemma_pow2_pos(w as nat);
        lemma2_to64();
        lemma2_to64_rest();
        if w < 64 {
            lemma_pow2_strictly_increases(w as nat, 64);
        }
    }
    if v >= mask_w(w) {
        proof {
            lemma_mod_self_0(pow2(w as nat) as int);
        }
        0
    } else {
        proof {
            lemma_small_mod((v + 1) as nat, pow2(w as nat));
        }
        v + 1
    }
}

} // verus!
