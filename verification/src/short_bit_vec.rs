//! Fixed-width unsigned bit vectors over a single machine word.
//!
//! A `ShortBitVec<N>` stores its `N` bits (`N <= 32`) in a `u32` whose bits at
//! position `N` and above are always zero.  Arithmetic wraps modulo `2^N`;
//! bitwise operations and shifts act only on the low `N` bits, exactly as a
//! hardware register of width `N` would.

use vstd::prelude::*;
use vstd::arithmetic::power2::*;
use vstd::arithmetic::div_mod::*;
use vstd::bits::*;
use num_bigint::BigUint;
use num_traits::{One, ToPrimitive};

use crate::errors::HdlError;

verus! {

/// Backing integer of a narrow bit vector.
pub type ShortType = u32;

/// Number of bits in the backing integer.
pub const SHORT_BITS: usize = 32;

/// Integer literals and shift amounts are exchanged through this type.
pub type LiteralType = u64;

/// Whether bit `i` of the natural number `v` is set.
pub open spec fn nat_bit(v: nat, i: nat) -> bool {
    (v / pow2(i)) % 2 == 1
}

/// Parity of the low `w` bits of `v`.
pub open spec fn nat_parity(v: nat, w: nat) -> bool
    decreases w,
{
    if w == 0 {
        false
    } else {
        (v % 2 == 1) != nat_parity(v / 2, (w - 1) as nat)
    }
}

/// A fixed-width unsigned integer of `N` bits, `N <= 32`, with wraparound
/// arithmetic.  Invariant: the stored bits at positions `N` and above are
/// always zero.
#[derive(Clone, Copy, Debug, PartialEq, Eq, Hash)]
pub struct ShortBitVec<const N: usize>(ShortType);

impl<const N: usize> ShortBitVec<N> {
    /// The number the stored bits denote.
    pub closed spec fn value(self) -> nat {
        self.0 as nat
    }

    /// Masking invariant: the width fits the backing word and the value is
    /// reduced modulo `2^N`.
    pub open spec fn wf(self) -> bool {
        N <= 32 && self.value() < pow2(N as nat)
    }

    /// Bit `i` of the value.
    pub open spec fn bit_at(self, i: nat) -> bool {
        nat_bit(self.value(), i)
    }

    /// The bit vector of width `N` holding `v` reduced modulo `2^N`.
    pub closed spec fn of_value(v: nat) -> ShortBitVec<N> {
        ShortBitVec((v % pow2(N as nat)) as u32)
    }

    proof fn lemma_pow2_word()
        requires
            N <= 32,
        ensures
            pow2(N as nat) <= 0x1_0000_0000,
            pow2(32) == 0x1_0000_0000,
            pow2(N as nat) >= 1,
            N < 32 ==> pow2(N as nat) < 0x1_0000_0000,
    {
        lemma2_to64();
        lemma_pow2_pos(N as nat);
        if N < 32 {
            lemma_pow2_strictly_increases(N as nat, 32);
        }
    }

    /// `of_value` indeed reduces modulo `2^N`.
    pub proof fn lemma_of_value(v: nat)
        requires
            N <= 32,
        ensures
            Self::of_value(v).value() == v % pow2(N as nat),
            Self::of_value(v).wf(),
    {
        Self::lemma_pow2_word();
        lemma_pow2_pos(N as nat);
        lemma_mod_bound(v as int, pow2(N as nat) as int);
    }

    /// A well-formed bit vector has no bit set at position `N` or above.
    pub proof fn lemma_high_bits_zero(self)
        requires
            self.wf(),
        ensures
            forall|i: nat| i >= N ==> !self.bit_at(i),
    {
        assert forall|i: nat| i >= N implies !self.bit_at(i) by {
            if i > N {
                lemma_pow2_strictly_increases(N as nat, i);
            }
            lemma_basic_div(self.value() as int, pow2(i) as int);
        }
    }

    /// The largest value a bit vector of this width can hold.
    pub fn max_legal() -> (r: u64)
        requires
            N <= 32,
        ensures
            r == pow2(N as nat) - 1,
    {
        proof {
            lemma2_to64();
            lemma2_to64_rest();
            lemma_u64_shl_is_mul(1u64, N as u64);
        }
        (1_u64 << (N as u64)) - 1
    }

    /// The raw backing word.
    pub fn short(&self) -> (r: ShortType)
        ensures
            r as nat == self.value(),
    {
        self.0
    }

    /// The value widened to 128 bits.
    pub fn to_u128(&self) -> (r: u128)
        ensures
            r as nat == self.value(),
    {
        self.0 as u128
    }

    /// The low-`N`-bits mask as a backing word.
    fn bit_mask() -> (r: ShortType)
        requires
            N <= 32,
        ensures
            r as nat == pow2(N as nat) - 1,
            r as nat == low_bits_mask(N as nat),
    {
        proof {
            Self::lemma_pow2_word();
        }
        if N == SHORT_BITS {
            proof {
                assert(!0u32 == 0xffff_ffffu32) by (bit_vector);
            }
            !0u32
        } else {
            proof {
                assert(1 * pow2(N as nat) == pow2(N as nat));
                lemma_u32_shl_is_mul(1u32, N as u32);
            }
            (1_u32 << (N as u32)) - 1
        }
    }

    /// The all-ones bit vector of this width.
    pub fn mask() -> (r: Self)
        requires
            N <= 32,
        ensures
            r.wf(),
            r.value() == pow2(N as nat) - 1,
    {
        proof {
            Self::lemma_pow2_word();
        }
        ShortBitVec(Self::bit_mask())
    }

    /// Reduce a raw word modulo `2^N`.
    pub fn from(t: ShortType) -> (r: Self)
        requires
            N <= 32,
        ensures
            r.wf(),
            r == Self::of_value(t as nat),
            r.value() == t as nat % pow2(N as nat),
    {
        proof {
            Self::lemma_of_value(t as nat);
            Self::lemma_pow2_word();
            if N == 32 {
                lemma_small_mod(t as nat, pow2(32));
                assert(t & 0xffff_ffffu32 == t) by (bit_vector);
            } else {
                lemma_u32_low_bits_mask_is_mod(t, N as nat);
            }
        }
        ShortBitVec(t & Self::bit_mask())
    }

    /// Whether bit `index` is set; the index must lie below the width.
    pub fn get_bit(&self, index: usize) -> (r: bool)
        requires
            self.wf(),
            index < N,
        ensures
            r == self.bit_at(index as nat),
    {
        proof {
            lemma_u32_bit_is_nat_bit(self.0, index as u32);
            let x = self.0;
            let i = index as u32;
            assert((x & (1u32 << i) != 0) == ((x >> i) & 1 == 1)) by (bit_vector)
                requires
                    i < 32,
            ;
        }
        self.0 & (1 << (index as u32)) != 0
    }

    /// Bounds-checked form of `get_bit`.
    pub fn try_get_bit(&self, index: usize) -> (r: Result<bool, HdlError>)
        requires
            self.wf(),
        ensures
            index < N ==> (r matches Ok(b) && b == self.bit_at(index as nat)),
            index >= N ==> (r matches Err(e) && (e matches HdlError::IndexError {
                index: i,
                width: w,
            } && i == index && w == N)),
    {
        if index < N {
            Ok(self.get_bit(index))
        } else {
            Err(HdlError::IndexError { index, width: N })
        }
    }

    /// The bit vector with bit `index` set to `val` and every other bit kept.
    pub fn replace_bit(&self, index: usize, val: bool) -> (r: Self)
        requires
            self.wf(),
            index < N,
        ensures
            r.wf(),
            forall|i: nat| i < N ==> r.bit_at(i) == (if i == index { val } else { self.bit_at(i) }),
    {
        let m: ShortType = 1 << (index as u32);
        let raw = if val {
            self.0 | m
        } else {
            self.0 & !m
        };
        proof {
            Self::lemma_pow2_word();
            lemma_replace_bit_raw(self.0, index as u32, val, N as u32, raw);
            if val && N < 32 {
                assert(1 * pow2(N as nat) == pow2(N as nat));
                lemma_u32_shl_is_mul(1u32, N as u32);
            }
            assert(ShortBitVec::<N>(raw).value() == raw as nat);
        }
        ShortBitVec(raw)
    }

    /// Bounds-checked form of `replace_bit`.
    pub fn try_replace_bit(&self, index: usize, val: bool) -> (r: Result<Self, HdlError>)
        requires
            self.wf(),
        ensures
            index < N ==> (r matches Ok(b) && b.wf() && forall|i: nat|
                i < N ==> b.bit_at(i) == (if i == index {
                    val
                } else {
                    self.bit_at(i)
                })),
            index >= N ==> (r matches Err(e) && (e matches HdlError::IndexError {
                index: i,
                width: w,
            } && i == index && w == N)),
    {
        if index < N {
            Ok(self.replace_bit(index, val))
        } else {
            Err(HdlError::IndexError { index, width: N })
        }
    }

    /// Whether any bit is set.
    pub fn any(&self) -> (r: bool)
        ensures
            r == (self.value() != 0),
    {
        self.0 != 0
    }

    /// Whether every bit of the width is set.
    pub fn all(&self) -> (r: bool)
        requires
            self.wf(),
        ensures
            r == (self.value() == pow2(N as nat) - 1),
    {
        self.0 == Self::bit_mask()
    }

    /// Exclusive-or reduction over the low `N` bits.
    pub fn xor(&self) -> (r: bool)
        requires
            self.wf(),
        ensures
            r == nat_parity(self.value(), N as nat),
    {
        let mut ret = false;
        let mut x = self.0;
        let mut k: usize = 0;
        proof {
            lemma2_to64();
            assert(self.value() / pow2(0) == self.value());
        }
        while k < N
            invariant
                k <= N,
                N <= 32,
                x as nat == self.value() / pow2(k as nat),
                nat_parity(self.value(), N as nat) == (ret != nat_parity(
                    x as nat,
                    (N - k) as nat,
                )),
            decreases N - k,
        {
            proof {
                lemma_pow2_unfold((k + 1) as nat);
                lemma_pow2_pos(k as nat);
                lemma_div_denominator(self.value() as int, pow2(k as nat) as int, 2);
                lemma_u32_low_bits_mask_is_mod(x, 1);
                lemma2_to64();
                assert(low_bits_mask(1) == 1);
                assert(x >> 1u32 == x / 2) by (bit_vector);
                assert(nat_parity(x as nat, (N - k) as nat) == ((x as nat % 2 == 1) != nat_parity(
                    (x as nat) / 2,
                    (N - k - 1) as nat,
                )));
            }
            ret = ret ^ (x & 0x1 != 0);
            x = x >> 1u32;
            k = k + 1;
        }
        ret
    }
}

/// Bridge between word-level and value-level bit reads: bit `i` of a backing
/// word, read with shift and mask, is bit `i` of the value it denotes.
pub proof fn lemma_u32_bit_is_nat_bit(x: u32, i: u32)
    requires
        i < 32,
    ensures
        (((x >> i) & 1) == 1) == nat_bit(x as nat, i as nat),
{
    lemma_u32_shr_is_div(x, i);
    lemma_u32_low_bits_mask_is_mod(x >> i, 1);
    lemma2_to64();
    assert(low_bits_mask(1) == 1);
}


impl<const N: usize> ShortBitVec<N> {
    /// The sum reduced modulo `2^N`.
    pub open spec fn spec_add(self, rhs: Self) -> ShortBitVec<N> {
        Self::of_value((self.value() + rhs.value()) as nat)
    }

    /// The difference, two's-complement style, reduced modulo `2^N`.
    pub open spec fn spec_sub(self, rhs: Self) -> ShortBitVec<N> {
        Self::of_value((self.value() + pow2(N as nat) - rhs.value()) as nat)
    }

    /// The bitwise complement within the width.
    pub open spec fn spec_not(self) -> ShortBitVec<N> {
        Self::of_value((pow2(N as nat) - 1 - self.value()) as nat)
    }

    /// Wraparound addition: the native sum reduced modulo `2^N`.
    pub fn add(self, rhs: Self) -> (r: Self)
        requires
            self.wf(),
            rhs.wf(),
        ensures
            r == self.spec_add(rhs),
            r.wf(),
            r.value() == (self.value() + rhs.value()) % pow2(N as nat),
    {
        proof {
            Self::lemma_pow2_word();
            Self::lemma_of_value((self.value() + rhs.value()) as nat);
            lemma_u64_low_bits_mask_is_mod((self.0 as u64 + rhs.0 as u64) as u64, N as nat);
        }
        let s: u64 = self.0 as u64 + rhs.0 as u64;
        let m: u64 = Self::bit_mask() as u64;
        ShortBitVec((s & m) as u32)
    }

    /// Wraparound subtraction, `a + !b + 1` modulo `2^N`.
    pub fn sub(self, rhs: Self) -> (r: Self)
        requires
            self.wf(),
            rhs.wf(),
        ensures
            r == self.spec_sub(rhs),
            r.wf(),
            r.value() == (self.value() + pow2(N as nat) - rhs.value()) as nat % pow2(N as nat),
    {
        proof {
            Self::lemma_pow2_word();
            Self::lemma_of_value((self.value() + pow2(N as nat) - rhs.value()) as nat);
        }
        let m: u64 = Self::bit_mask() as u64;
        let s: u64 = self.0 as u64 + (m + 1) - rhs.0 as u64;
        proof {
            lemma_u64_low_bits_mask_is_mod(s, N as nat);
        }
        ShortBitVec((s & m) as u32)
    }

    /// Bitwise or over the low `N` bits.
    pub fn bitor(self, rhs: Self) -> (r: Self)
        requires
            self.wf(),
            rhs.wf(),
        ensures
            r.wf(),
            forall|i: nat| i < N ==> r.bit_at(i) == (self.bit_at(i) || rhs.bit_at(i)),
    {
        proof {
            Self::lemma_pow2_word();
            let x = self.0;
            let y = rhs.0;
            let n = N as u32;
            if n < 32 {
                assert(1 * pow2(N as nat) == pow2(N as nat));
                lemma_u32_shl_is_mul(1u32, n);
                assert((x | y) < (1u32 << n)) by (bit_vector)
                    requires
                        x < (1u32 << n),
                        y < (1u32 << n),
                        n < 32,
                ;
            }
            assert forall|i: nat| i < N implies nat_bit((x | y) as nat, i) == (nat_bit(x as nat, i)
                || nat_bit(y as nat, i)) by {
                let iu = i as u32;
                assert((((x | y) >> iu) & 1 == 1) == (((x >> iu) & 1 == 1) || ((y >> iu) & 1
                    == 1))) by (bit_vector)
                    requires
                        iu < 32,
                ;
                lemma_u32_bit_is_nat_bit(x | y, iu);
                lemma_u32_bit_is_nat_bit(x, iu);
                lemma_u32_bit_is_nat_bit(y, iu);
            }
        }
        ShortBitVec(self.0 | rhs.0)
    }

    /// Bitwise and over the low `N` bits.
    pub fn bitand(self, rhs: Self) -> (r: Self)
        requires
            self.wf(),
            rhs.wf(),
        ensures
            r.wf(),
            forall|i: nat| i < N ==> r.bit_at(i) == (self.bit_at(i) && rhs.bit_at(i)),
    {
        proof {
            Self::lemma_pow2_word();
            let x = self.0;
            let y = rhs.0;
            assert((x & y) <= x) by (bit_vector);
            assert forall|i: nat| i < N implies nat_bit((x & y) as nat, i) == (nat_bit(x as nat, i)
                && nat_bit(y as nat, i)) by {
                let iu = i as u32;
                assert((((x & y) >> iu) & 1 == 1) == (((x >> iu) & 1 == 1) && ((y >> iu) & 1
                    == 1))) by (bit_vector)
                    requires
                        iu < 32,
                ;
                lemma_u32_bit_is_nat_bit(x & y, iu);
                lemma_u32_bit_is_nat_bit(x, iu);
                lemma_u32_bit_is_nat_bit(y, iu);
            }
        }
        ShortBitVec(self.0 & rhs.0)
    }

    /// Bitwise exclusive or over the low `N` bits.
    pub fn bitxor(self, rhs: Self) -> (r: Self)
        requires
            self.wf(),
            rhs.wf(),
        ensures
            r.wf(),
            forall|i: nat| i < N ==> r.bit_at(i) == (self.bit_at(i) != rhs.bit_at(i)),
    {
        proof {
            Self::lemma_pow2_word();
            let x = self.0;
            let y = rhs.0;
            let n = N as u32;
            if n < 32 {
                assert(1 * pow2(N as nat) == pow2(N as nat));
                lemma_u32_shl_is_mul(1u32, n);
                assert((x ^ y) < (1u32 << n)) by (bit_vector)
                    requires
                        x < (1u32 << n),
                        y < (1u32 << n),
                        n < 32,
                ;
            }
            assert forall|i: nat| i < N implies nat_bit((x ^ y) as nat, i) == (nat_bit(x as nat, i)
                != nat_bit(y as nat, i)) by {
                let iu = i as u32;
                assert((((x ^ y) >> iu) & 1 == 1) == (((x >> iu) & 1 == 1) != ((y >> iu) & 1
                    == 1))) by (bit_vector)
                    requires
                        iu < 32,
                ;
                lemma_u32_bit_is_nat_bit(x ^ y, iu);
                lemma_u32_bit_is_nat_bit(x, iu);
                lemma_u32_bit_is_nat_bit(y, iu);
            }
        }
        ShortBitVec(self.0 ^ rhs.0)
    }

    /// Bitwise complement within the width.
    pub fn not(self) -> (r: Self)
        requires
            self.wf(),
        ensures
            r == self.spec_not(),
            r.wf(),
            r.value() == pow2(N as nat) - 1 - self.value(),
            forall|i: nat| i < N ==> r.bit_at(i) == !self.bit_at(i),
    {
        proof {
            Self::lemma_pow2_word();
            Self::lemma_of_value((pow2(N as nat) - 1 - self.value()) as nat);
            lemma_small_mod((pow2(N as nat) - 1 - self.value()) as nat, pow2(N as nat));
            let x = self.0;
            let n = N as u32;
            if n < 32 {
                assert(1 * pow2(N as nat) == pow2(N as nat));
                lemma_u32_shl_is_mul(1u32, n);
                assert(!x & (((1u32 << n) - 1) as u32) == ((((1u32 << n) - 1) as u32) - x) as u32)
                    by (bit_vector)
                    requires
                        x < (1u32 << n),
                        n < 32,
                ;
            } else {
                assert(!x & 0xffff_ffffu32 == 0xffff_ffffu32 - x) by (bit_vector);
            }
            let raw = (pow2(N as nat) - 1 - self.value()) as u32;
            assert forall|i: nat| i < N implies nat_bit(raw as nat, i) == !nat_bit(
                x as nat,
                i,
            ) by {
                let iu = i as u32;
                let n32 = N as u32;
                lemma2_to64();
                lemma2_to64_rest();
                lemma_u64_shl_is_mul(1u64, n32 as u64);
                assert((((((((1u64 << n32) - 1) as u64 - x as u64) as u64) as u32) >> iu) & 1
                    == 1) == !((x >> iu) & 1 == 1)) by (bit_vector)
                    requires
                        iu < n32,
                        n32 <= 32,
                        (x as u64) < (1u64 << n32),
                ;
                lemma_u32_bit_is_nat_bit(raw, iu);
                lemma_u32_bit_is_nat_bit(x, iu);
            }
        }
        ShortBitVec(!self.0 & Self::bit_mask())
    }
}


/// Relies on num_bigint::BigUint arithmetic: builds `x`, shifts it left by
/// `sh`, masks with `(1 << n) - 1`, and reads the result back with
/// num_traits::ToPrimitive::to_u32; over arbitrary-precision integers that is
/// exactly `(x * 2^sh) mod 2^n`, which fits a `u32` for `n <= 32`.
#[verifier::external_body]
fn big_shl_masked(x: u32, sh: u64, n: u32) -> (r: u32)
    requires
        n <= 32,
        sh < 32,
    ensures
        r as nat == (x as nat * pow2(sh as nat)) % pow2(n as nat),
{
    let v: BigUint = BigUint::from(x) << sh;
    let mask: BigUint = (BigUint::one() << n) - BigUint::one();
    (v & mask).to_u32().unwrap()
}

/// Relies on num_bigint::BigUint arithmetic: builds `x`, shifts it right by
/// `sh` (division by `2^sh`), masks with `(1 << n) - 1`, and reads the result
/// back with num_traits::ToPrimitive::to_u32.
#[verifier::external_body]
fn big_shr_masked(x: u32, sh: u64, n: u32) -> (r: u32)
    requires
        n <= 32,
        sh < 32,
    ensures
        r as nat == (x as nat / pow2(sh as nat)) % pow2(n as nat),
{
    let v: BigUint = BigUint::from(x) >> sh;
    let mask: BigUint = (BigUint::one() << n) - BigUint::one();
    (v & mask).to_u32().unwrap()
}

impl<const N: usize> ShortBitVec<N> {
    /// The value shifted left by `sh`, shifted-out bits discarded.
    pub open spec fn spec_shl(self, sh: nat) -> ShortBitVec<N> {
        Self::of_value(self.value() * pow2(sh))
    }

    /// The value shifted right by `sh`, zeroes shifted in.
    pub open spec fn spec_shr(self, sh: nat) -> ShortBitVec<N> {
        Self::of_value(self.value() / pow2(sh))
    }

    /// Hardware left shift: bits shifted beyond the width are discarded,
    /// zeroes are shifted in, for any runtime shift amount.
    pub fn shl(self, rhs: LiteralType) -> (r: Self)
        requires
            self.wf(),
        ensures
            r == self.spec_shl(rhs as nat),
            r.wf(),
            r.value() == (self.value() * pow2(rhs as nat)) % pow2(N as nat),
    {
        proof {
            Self::lemma_of_value((self.value() * pow2(rhs as nat)) as nat);
        }
        if rhs >= N as u64 {
            proof {
                Self::lemma_pow2_word();
                lemma_pow2_adds((rhs - N) as nat, N as nat);
                vstd::arithmetic::mul::lemma_mul_is_associative(
                    self.value() as int,
                    pow2((rhs - N) as nat) as int,
                    pow2(N as nat) as int,
                );
                lemma_mod_multiples_basic(
                    (self.value() * pow2((rhs - N) as nat)) as int,
                    pow2(N as nat) as int,
                );
            }
            ShortBitVec(0)
        } else {
            ShortBitVec(big_shl_masked(self.0, rhs, N as u32))
        }
    }

    /// Hardware right shift: zeroes shifted in, for any runtime shift amount.
    pub fn shr(self, rhs: LiteralType) -> (r: Self)
        requires
            self.wf(),
        ensures
            r == self.spec_shr(rhs as nat),
            r.wf(),
            r.value() == self.value() / pow2(rhs as nat),
    {
        proof {
            Self::lemma_of_value((self.value() / pow2(rhs as nat)) as nat);
            lemma_pow2_pos(rhs as nat);
            lemma_div_nonincreasing(self.value() as int, pow2(rhs as nat) as int);
            lemma_small_mod(self.value() / pow2(rhs as nat), pow2(N as nat));
        }
        if rhs >= N as u64 {
            proof {
                if rhs > N as u64 {
                    lemma_pow2_strictly_increases(N as nat, rhs as nat);
                }
                lemma_basic_div(self.value() as int, pow2(rhs as nat) as int);
            }
            ShortBitVec(0)
        } else {
            ShortBitVec(big_shr_masked(self.0, rhs, N as u32))
        }
    }

    /// Left shift by the value of another bit vector.
    pub fn shl_bits<const M: usize>(self, rhs: ShortBitVec<M>) -> (r: Self)
        requires
            self.wf(),
        ensures
            r == self.spec_shl(rhs.value()),
            r.wf(),
    {
        let amount = rhs.short() as LiteralType;
        self.shl(amount)
    }

    /// Right shift by the value of another bit vector.
    pub fn shr_bits<const M: usize>(self, rhs: ShortBitVec<M>) -> (r: Self)
        requires
            self.wf(),
        ensures
            r == self.spec_shr(rhs.value()),
            r.wf(),
    {
        let amount = rhs.short() as LiteralType;
        self.shr(amount)
    }

    /// Unsigned numeric comparison.
    pub fn lt(&self, other: &Self) -> (r: bool)
        ensures
            r == (self.value() < other.value()),
    {
        self.0 < other.0
    }

    /// Unsigned numeric comparison.
    pub fn le(&self, other: &Self) -> (r: bool)
        ensures
            r == (self.value() <= other.value()),
    {
        self.0 <= other.0
    }

    /// Equality of the stored values.
    pub fn eq_bits(&self, other: &Self) -> (r: bool)
        ensures
            r == (self.value() == other.value()),
            r == (*self == *other),
    {
        self.0 == other.0
    }
}

/// Masking law: reducing any raw value into width `N` leaves no bit set at
/// index `N` or above.
pub proof fn lemma_masking_invariant<const N: usize>(v: nat, i: nat)
    requires
        N <= 32,
        i >= N,
    ensures
        !ShortBitVec::<N>::of_value(v).bit_at(i),
{
    ShortBitVec::<N>::lemma_of_value(v);
    ShortBitVec::<N>::of_value(v).lemma_high_bits_zero();
}

/// Wraparound law: subtraction is addition of the bitwise complement plus
/// one, modulo `2^N`.
pub proof fn lemma_sub_is_add_not_plus_one<const N: usize>(a: ShortBitVec<N>, b: ShortBitVec<N>)
    requires
        a.wf(),
        b.wf(),
    ensures
        a.spec_sub(b) == a.spec_add(b.spec_not().spec_add(ShortBitVec::<N>::of_value(1))),
{
    let p = pow2(N as nat) as int;
    ShortBitVec::<N>::lemma_pow2_word();
    ShortBitVec::<N>::lemma_of_value(1);
    let one = ShortBitVec::<N>::of_value(1);
    ShortBitVec::<N>::lemma_of_value((p - 1 - a.value()) as nat);
    ShortBitVec::<N>::lemma_of_value((p - 1 - b.value()) as nat);
    let nb = b.spec_not();
    lemma_small_mod((p - 1 - b.value()) as nat, p as nat);
    assert(nb.value() == p - 1 - b.value());
    if N == 0 {
        lemma2_to64();
        lemma_mod_self_0(1int);
        assert(a.value() == 0 && b.value() == 0);
        assert(one.value() == 0);
        ShortBitVec::<N>::lemma_of_value((nb.value() + one.value()) as nat);
        let inner = nb.spec_add(one);
        ShortBitVec::<N>::lemma_of_value((a.value() + inner.value()) as nat);
        ShortBitVec::<N>::lemma_of_value((a.value() + p - b.value()) as nat);
        assert(a.spec_sub(b).value() == a.spec_add(inner).value());
        assert(a.spec_sub(b).value() == a.spec_sub(b).value());
    } else {
        lemma2_to64();
        lemma_pow2_strictly_increases(0, N as nat);
        lemma_small_mod(1nat, p as nat);
        assert(one.value() == 1);
        ShortBitVec::<N>::lemma_of_value((nb.value() + one.value()) as nat);
        let inner = nb.spec_add(one);
        assert(inner.value() as int == (p - b.value()) % p);
        ShortBitVec::<N>::lemma_of_value((a.value() + inner.value()) as nat);
        ShortBitVec::<N>::lemma_of_value((a.value() + p - b.value()) as nat);
        lemma_add_mod_noop_right(a.value() as int, p - b.value(), p);
        assert((a.value() + inner.value()) as int % p == (a.value() + p - b.value()) as int % p);
        assert(a.spec_sub(b).value() == a.spec_add(inner).value());
    }
    assert(a.spec_sub(b).0 == a.spec_add(b.spec_not().spec_add(ShortBitVec::<N>::of_value(1))).0);
}


/// Raw-word characterization of setting or clearing one bit.
proof fn lemma_replace_bit_raw(x: u32, idx: u32, val: bool, n: u32, raw: u32)
    requires
        idx < n,
        n <= 32,
        raw == (if val {
            x | (1u32 << idx)
        } else {
            x & !(1u32 << idx)
        }),
    ensures
        forall|i: nat|
            i < n ==> #[trigger] nat_bit(raw as nat, i) == (if i == idx {
                val
            } else {
                nat_bit(x as nat, i)
            }),
        val ==> (n < 32 && x < (1u32 << n) ==> raw < (1u32 << n)),
        !val ==> raw <= x,
{
    assert forall|i: nat|
        i < n implies #[trigger] nat_bit(raw as nat, i) == (if i == idx {
        val
    } else {
        nat_bit(x as nat, i)
    }) by {
        let iu = i as u32;
        if val {
            assert((((x | (1u32 << idx)) >> iu) & 1) == (if iu == idx {
                1u32
            } else {
                (x >> iu) & 1
            })) by (bit_vector)
                requires
                    iu < 32,
                    idx < 32,
            ;
        } else {
            assert((((x & !(1u32 << idx)) >> iu) & 1) == (if iu == idx {
                0u32
            } else {
                (x >> iu) & 1
            })) by (bit_vector)
                requires
                    iu < 32,
                    idx < 32,
            ;
        }
        lemma_u32_bit_is_nat_bit(raw, iu);
        lemma_u32_bit_is_nat_bit(x, iu);
    }
    if val {
        if n < 32 && x < (1u32 << n) {
            assert((x | (1u32 << idx)) < (1u32 << n)) by (bit_vector)
                requires
                    x < (1u32 << n),
                    idx < n,
                    n < 32,
            ;
        }
    } else {
        assert((x & !(1u32 << idx)) <= x) by (bit_vector);
    }
}

} // verus!
