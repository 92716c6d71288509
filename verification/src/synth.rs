//! Bit-level packing of synthesizable values.  A `Synth` value has a fixed
//! bit width and exposes every bit by index; structs, tuples and arrays pack
//! their members in declaration order, low offsets first, and report each
//! member's bit offset.

use vstd::prelude::*;
use vstd::arithmetic::div_mod::*;
use vstd::arithmetic::mul::*;

use crate::short_bit_vec::{lemma_u32_bit_is_nat_bit, nat_bit};

verus! {

broadcast use vstd::string::group_string_axioms;

/// A value with a fixed bit width whose bits can be read by index, bit zero
/// first.  Implementing types are plain copyable values.
pub trait Synth: Sized {
    /// The declared width in bits.
    spec fn spec_bits() -> nat;

    /// Bit `i` of the packed value.
    spec fn bit_of(self, i: nat) -> bool;

    /// The declared width in bits.
    fn bit_count() -> (r: usize)
        requires
            Self::spec_bits() <= usize::MAX,
        ensures
            r == Self::spec_bits(),
    ;

    /// Bit `index` of the packed value.
    fn get(&self, index: usize) -> (r: bool)
        requires
            Self::spec_bits() <= usize::MAX,
            index < Self::spec_bits(),
        ensures
            r == self.bit_of(index as nat),
    ;

    /// The declared width in bits.
    fn bits(&self) -> (r: usize)
        requires
            Self::spec_bits() <= usize::MAX,
        ensures
            r == Self::spec_bits(),
    {
        Self::bit_count()
    }

    /// Every bit, lowest index first.
    fn pack(&self) -> (r: Vec<bool>)
        requires
            Self::spec_bits() <= usize::MAX,
        ensures
            r@.len() == Self::spec_bits(),
            forall|i: int| 0 <= i < r@.len() ==> r@[i] == self.bit_of(i as nat),
    {
        let n = Self::bit_count();
        let mut r: Vec<bool> = Vec::new();
        let mut i: usize = 0;
        while i < n
            invariant
                n == Self::spec_bits(),
                i <= n,
                r@.len() == i,
                forall|k: int| 0 <= k < i ==> r@[k] == self.bit_of(k as nat),
            decreases n - i,
        {
            let b = self.get(i);
            r.push(b);
            i = i + 1;
        }
        r
    }

    /// A cursor over the bits, lowest index first.
    fn iter(&self) -> (r: BitIter<'_, Self>)
        ensures
            r.synth == self,
            r.index == 0,
    {
        BitIter { synth: self, index: 0 }
    }

    /// The bits as a binary numeral, most significant bit first.
    fn bin(&self) -> (r: String)
        requires
            Self::spec_bits() <= usize::MAX,
        ensures
            r@.len() == Self::spec_bits(),
            forall|i: int|
                0 <= i < r@.len() ==> r@[i] == (if self.bit_of((r@.len() - 1 - i) as nat) {
                    '1'
                } else {
                    '0'
                }),
    {
        proof {
            reveal_strlit("1");
            reveal_strlit("0");
        }
        let n = Self::bit_count();
        let mut r = String::new();
        let mut i: usize = n;
        while i > 0
            invariant
                n == Self::spec_bits(),
                i <= n,
                r@.len() == n - i,
                "1"@ =~= seq!['1'],
                "0"@ =~= seq!['0'],
                forall|k: int|
                    0 <= k < r@.len() ==> r@[k] == (if self.bit_of((n - 1 - k) as nat) {
                        '1'
                    } else {
                        '0'
                    }),
            decreases i,
        {
            i = i - 1;
            let b = self.get(i);
            if b {
                r.append("1");
            } else {
                r.append("0");
            }
        }
        r
    }
}

/// A cursor over the bits of a `Synth` value.
pub struct BitIter<'a, T: Synth> {
    /// The value whose bits are read.
    pub synth: &'a T,
    /// The next bit index to hand out.
    pub index: usize,
}

impl<'a, T: Synth> BitIter<'a, T> {
    /// The next bit, lowest index first, until the width is exhausted.
    pub fn next(&mut self) -> (r: Option<bool>)
        requires
            T::spec_bits() <= usize::MAX,
        ensures
            old(self).index < T::spec_bits() ==> r == Some(
                old(self).synth.bit_of(old(self).index as nat),
            ) && final(self).index == old(self).index + 1,
            old(self).index >= T::spec_bits() ==> r is None && final(self).index == old(
                self,
            ).index,
            final(self).synth == old(self).synth,
    {
        if self.index < T::bit_count() {
            let val = self.synth.get(self.index);
            self.index = self.index + 1;
            Some(val)
        } else {
            None
        }
    }
}

/// A struct whose members sit at fixed, named bit offsets.
pub trait SynthStruct: Synth {
    /// The bit offset of the named member, where the name is known.
    spec fn spec_offset(name: Seq<char>) -> Option<nat>;

    /// The bit offset of the named member.  A name the type does not have is
    /// excluded up front, where the original failed fast.
    fn static_offset(name: &'static str) -> (r: usize)
        requires
            Self::spec_bits() <= usize::MAX,
            Self::spec_offset(name@) is Some,
        ensures
            Self::spec_offset(name@) matches Some(o) ==> r == o,
    ;

    /// The bit offset of the named member.
    fn offset(self, name: &'static str) -> (r: usize)
        requires
            Self::spec_bits() <= usize::MAX,
            Self::spec_offset(name@) is Some,
        ensures
            Self::spec_offset(name@) matches Some(o) ==> r == o,
    {
        Self::static_offset(name)
    }
}

/// A tuple whose members sit at fixed, indexed bit offsets.
pub trait SynthTuple: Synth {
    /// The bit offset of the member at `index`, where the index is in range.
    spec fn spec_offset(index: int) -> Option<nat>;

    /// The bit offset of the member at `index`.  An index the tuple does not
    /// have is excluded up front, where the original failed fast.
    fn static_offset(index: usize) -> (r: usize)
        requires
            Self::spec_bits() <= usize::MAX,
            Self::spec_offset(index as int) is Some,
        ensures
            Self::spec_offset(index as int) matches Some(o) ==> r == o,
    ;

    /// The bit offset of the member at `index`.
    fn offset(self, index: usize) -> (r: usize)
        requires
            Self::spec_bits() <= usize::MAX,
            Self::spec_offset(index as int) is Some,
        ensures
            Self::spec_offset(index as int) matches Some(o) ==> r == o,
    {
        Self::static_offset(index)
    }
}

/// An array whose elements sit at fixed, indexed bit offsets.
pub trait SynthArray: Synth {
    /// The bit offset of the element at `index`.
    spec fn spec_offset(index: int) -> nat;

    /// The bit offset of the element at `index`.
    fn static_offset(index: usize) -> (r: usize)
        requires
            Self::spec_offset(index as int) <= usize::MAX,
        ensures
            r == Self::spec_offset(index as int),
    ;

    /// The bit offset of the element at `index`.
    fn offset(self, index: usize) -> (r: usize)
        requires
            Self::spec_offset(index as int) <= usize::MAX,
        ensures
            r == Self::spec_offset(index as int),
    {
        Self::static_offset(index)
    }
}

impl Synth for u8 {
    open spec fn spec_bits() -> nat {
        8
    }

    open spec fn bit_of(self, i: nat) -> bool {
        nat_bit(self as nat, i)
    }

    fn bit_count() -> usize {
        8
    }

    fn get(&self, index: usize) -> (r: bool) {
        proof {
            lemma_u32_bit_is_nat_bit(*self as u32, index as u32);
            let x = *self as u32;
            let i = index as u32;
            assert((x & (1u32 << i) != 0) == ((x >> i) & 1 == 1)) by (bit_vector)
                requires
                    i < 32,
            ;
        }
        (*self as u32) & (1 << (index as u32)) != 0
    }
}

impl Synth for u16 {
    open spec fn spec_bits() -> nat {
        16
    }

    open spec fn bit_of(self, i: nat) -> bool {
        nat_bit(self as nat, i)
    }

    fn bit_count() -> usize {
        16
    }

    fn get(&self, index: usize) -> (r: bool) {
        proof {
            lemma_u32_bit_is_nat_bit(*self as u32, index as u32);
            let x = *self as u32;
            let i = index as u32;
            assert((x & (1u32 << i) != 0) == ((x >> i) & 1 == 1)) by (bit_vector)
                requires
                    i < 32,
            ;
        }
        (*self as u32) & (1 << (index as u32)) != 0
    }
}

impl Synth for u32 {
    open spec fn spec_bits() -> nat {
        32
    }

    open spec fn bit_of(self, i: nat) -> bool {
        nat_bit(self as nat, i)
    }

    fn bit_count() -> usize {
        32
    }

    fn get(&self, index: usize) -> (r: bool) {
        proof {
            lemma_u32_bit_is_nat_bit(*self, index as u32);
            let x = *self;
            let i = index as u32;
            assert((x & (1u32 << i) != 0) == ((x >> i) & 1 == 1)) by (bit_vector)
                requires
                    i < 32,
            ;
        }
        *self & (1 << (index as u32)) != 0
    }
}

impl<S: Synth, const N: usize> Synth for [S; N] {
    open spec fn spec_bits() -> nat {
        (N * S::spec_bits()) as nat
    }

    open spec fn bit_of(self, i: nat) -> bool {
        S::spec_bits() > 0 && self@[(i / S::spec_bits()) as int].bit_of(i % S::spec_bits())
    }

    fn bit_count() -> (r: usize) {
        proof {
            if N > 0 {
                assert(S::spec_bits() <= N * S::spec_bits()) by (nonlinear_arith)
                    requires
                        N >= 1,
                ;
            }
            assert((N * S::spec_bits()) as nat <= usize::MAX);
        }
        if N == 0 {
            0
        } else {
            N * S::bit_count()
        }
    }

    fn get(&self, index: usize) -> (r: bool) {
        proof {
            assert(S::spec_bits() <= N * S::spec_bits()) by (nonlinear_arith)
                requires
                    N >= 1,
            ;
        }
        let eb = S::bit_count();
        proof {
            if eb == 0 {
                assert(N * S::spec_bits() == 0) by (nonlinear_arith)
                    requires
                        S::spec_bits() == 0,
                ;
            }
            lemma_mul_is_commutative(N as int, S::spec_bits() as int);
            lemma_multiply_divide_lt(index as int, S::spec_bits() as int, N as int);
            lemma_mod_bound(index as int, S::spec_bits() as int);
        }
        let array_index = index / eb;
        let synth_index = index % eb;
        self[array_index].get(synth_index)
    }
}

impl<S: Synth, const N: usize> SynthArray for [S; N] {
    open spec fn spec_offset(index: int) -> nat {
        (index * S::spec_bits()) as nat
    }

    fn static_offset(index: usize) -> (r: usize) {
        proof {
            lemma_mul_is_commutative(index as int, S::spec_bits() as int);
            if index > 0 {
                assert(S::spec_bits() <= index * S::spec_bits()) by (nonlinear_arith)
                    requires
                        index >= 1,
                ;
            }
        }
        if index == 0 {
            0
        } else {
            index * S::bit_count()
        }
    }
}

impl<A: Synth, B: Synth> Synth for (A, B) {
    open spec fn spec_bits() -> nat {
        A::spec_bits() + B::spec_bits()
    }

    open spec fn bit_of(self, i: nat) -> bool {
        if i < A::spec_bits() {
            self.0.bit_of(i)
        } else {
            self.1.bit_of((i - A::spec_bits()) as nat)
        }
    }

    fn bit_count() -> (r: usize) {
        A::bit_count() + B::bit_count()
    }

    fn get(&self, index: usize) -> (r: bool) {
        proof {
            assert(A::spec_bits() <= usize::MAX && B::spec_bits() <= usize::MAX);
        }
        let ab = A::bit_count();
        if index < ab {
            self.0.get(index)
        } else {
            self.1.get(index - ab)
        }
    }
}

impl<A: Synth, B: Synth> SynthTuple for (A, B) {
    open spec fn spec_offset(index: int) -> Option<nat> {
        if index == 0 {
            Some(0nat)
        } else if index == 1 {
            Some(A::spec_bits())
        } else {
            None::<nat>
        }
    }

    fn static_offset(index: usize) -> (r: usize) {
        proof {
            assert(A::spec_bits() <= usize::MAX);
        }
        if index == 0 {
            0
        } else if index == 1 {
            A::bit_count()
        } else {
            0
        }
    }
}

/// The larger of two widths.
pub fn max(a: usize, b: usize) -> (r: usize)
    ensures
        r == (if a > b {
            a
        } else {
            b
        }),
{
    if a > b {
        a
    } else {
        b
    }
}


/// A three-state mode, packed into two bits.
#[derive(Clone, Copy, Debug, PartialEq, Eq, Structural)]
pub enum State {
    A,
    B,
    C,
}

impl Default for State {
    /// The reset mode.
    fn default() -> (r: Self)
        ensures
            r == State::A,
    {
        State::A
    }
}

impl Synth for State {
    open spec fn spec_bits() -> nat {
        2
    }

    open spec fn bit_of(self, i: nat) -> bool {
        match self {
            State::A => false,
            State::B => i == 0,
            State::C => i == 1,
        }
    }

    fn bit_count() -> usize {
        2
    }

    fn get(&self, index: usize) -> (r: bool) {
        match self {
            State::A => false,
            State::B => index == 0,
            State::C => index == 1,
        }
    }
}

/// Three plain words packed in declaration order.
#[derive(Clone, Copy, Debug, PartialEq, Eq, Structural)]
pub struct MyStruct {
    pub a: u8,
    pub b: u16,
    pub c: u32,
}

impl Default for MyStruct {
    /// All members zero.
    fn default() -> (r: Self)
        ensures
            r == (MyStruct { a: 0, b: 0, c: 0 }),
    {
        MyStruct { a: 0, b: 0, c: 0 }
    }
}

impl Synth for MyStruct {
    open spec fn spec_bits() -> nat {
        56
    }

    open spec fn bit_of(self, i: nat) -> bool {
        if i < 8 {
            self.a.bit_of(i)
        } else if i < 24 {
            self.b.bit_of((i - 8) as nat)
        } else {
            self.c.bit_of((i - 24) as nat)
        }
    }

    fn bit_count() -> usize {
        56
    }

    fn get(&self, index: usize) -> (r: bool) {
        if index < 8 {
            self.a.get(index)
        } else if index < 24 {
            self.b.get(index - 8)
        } else {
            self.c.get(index - 24)
        }
    }
}

impl SynthStruct for MyStruct {
    open spec fn spec_offset(name: Seq<char>) -> Option<nat> {
        if name == "a"@ {
            Some(0nat)
        } else if name == "b"@ {
            Some(8nat)
        } else if name == "c"@ {
            Some(24nat)
        } else {
            None::<nat>
        }
    }

    fn static_offset(name: &'static str) -> (r: usize) {
        member_select(name, 0, 8, 24)
    }
}

/// Nested packing: plain words, a struct member and a tuple member.
#[derive(Clone, Copy, Debug, PartialEq)]
pub struct MyComplexStruct {
    pub a: u8,
    pub b: u16,
    pub c: u32,
    pub d: MyStruct,
    pub e: (u16, MyStruct),
    pub f: u8,
}

impl Default for MyComplexStruct {
    /// All members zero.
    fn default() -> (r: Self)
        ensures
            r.a == 0 && r.b == 0 && r.c == 0 && r.d == (MyStruct { a: 0, b: 0, c: 0 }) && r.e == ((
                0u16,
                MyStruct { a: 0, b: 0, c: 0 },
            )) && r.f == 0,
    {
        MyComplexStruct {
            a: 0,
            b: 0,
            c: 0,
            d: MyStruct { a: 0, b: 0, c: 0 },
            e: (0, MyStruct { a: 0, b: 0, c: 0 }),
            f: 0,
        }
    }
}

impl Synth for MyComplexStruct {
    open spec fn spec_bits() -> nat {
        192
    }

    open spec fn bit_of(self, i: nat) -> bool {
        if i < 8 {
            self.a.bit_of(i)
        } else if i < 24 {
            self.b.bit_of((i - 8) as nat)
        } else if i < 56 {
            self.c.bit_of((i - 24) as nat)
        } else if i < 112 {
            self.d.bit_of((i - 56) as nat)
        } else if i < 184 {
            self.e.bit_of((i - 112) as nat)
        } else {
            self.f.bit_of((i - 184) as nat)
        }
    }

    fn bit_count() -> usize {
        192
    }

    fn get(&self, index: usize) -> (r: bool) {
        if index < 8 {
            self.a.get(index)
        } else if index < 24 {
            self.b.get(index - 8)
        } else if index < 56 {
            self.c.get(index - 24)
        } else if index < 112 {
            self.d.get(index - 56)
        } else if index < 184 {
            self.e.get(index - 112)
        } else {
            self.f.get(index - 184)
        }
    }
}

impl SynthStruct for MyComplexStruct {
    open spec fn spec_offset(name: Seq<char>) -> Option<nat> {
        if name == "a"@ {
            Some(0nat)
        } else if name == "b"@ {
            Some(8nat)
        } else if name == "c"@ {
            Some(24nat)
        } else if name == "d"@ {
            Some(56nat)
        } else if name == "e"@ {
            Some(112nat)
        } else if name == "f"@ {
            Some(184nat)
        } else {
            None::<nat>
        }
    }

    fn static_offset(name: &'static str) -> (r: usize) {
        proof {
            reveal_strlit("a");
            reveal_strlit("b");
            reveal_strlit("c");
            reveal_strlit("d");
            reveal_strlit("e");
            reveal_strlit("f");
        }
        let n = name.unicode_len();
        if n != 1 {
            proof {
                lemma_one_char_names(name@);
            }
            return 0;
        }
        let ch = name.get_char(0);
        let r: usize = if ch == 'a' {
            0
        } else if ch == 'b' {
            8
        } else if ch == 'c' {
            24
        } else if ch == 'd' {
            56
        } else if ch == 'e' {
            112
        } else if ch == 'f' {
            184
        } else {
            0
        };
        proof {
            lemma_one_char_eq(name@, 'a');
            lemma_one_char_eq(name@, 'b');
            lemma_one_char_eq(name@, 'c');
            lemma_one_char_eq(name@, 'd');
            lemma_one_char_eq(name@, 'e');
            lemma_one_char_eq(name@, 'f');
        }
        r
    }
}

/// A byte beside a two-bit mode.
#[derive(Clone, Copy, Debug, PartialEq, Eq, Structural)]
pub struct EnumWithU8 {
    pub a: u8,
    pub b: State,
}

impl Synth for EnumWithU8 {
    open spec fn spec_bits() -> nat {
        10
    }

    open spec fn bit_of(self, i: nat) -> bool {
        if i < 8 {
            self.a.bit_of(i)
        } else {
            self.b.bit_of((i - 8) as nat)
        }
    }

    fn bit_count() -> usize {
        10
    }

    fn get(&self, index: usize) -> (r: bool) {
        if index < 8 {
            self.a.get(index)
        } else {
            self.b.get(index - 8)
        }
    }
}

impl SynthStruct for EnumWithU8 {
    open spec fn spec_offset(name: Seq<char>) -> Option<nat> {
        if name == "a"@ {
            Some(0nat)
        } else if name == "b"@ {
            Some(8nat)
        } else {
            None::<nat>
        }
    }

    fn static_offset(name: &'static str) -> (r: usize) {
        member_select(name, 0, 8, 0)
    }
}

/// A tagged union: two tag bits, then the payload of the widest variant.
#[derive(Clone, Copy, Debug, PartialEq)]
pub enum ADT {
    A(u8),
    B(u16),
    C(u32),
}

impl Synth for ADT {
    open spec fn spec_bits() -> nat {
        34
    }

    open spec fn bit_of(self, i: nat) -> bool {
        match self {
            ADT::A(x) => i != 0 && (if i == 1 {
                false
            } else {
                x.bit_of((i - 2) as nat)
            }),
            ADT::B(x) => i != 0 && (if i == 1 {
                true
            } else {
                x.bit_of((i - 2) as nat)
            }),
            ADT::C(x) => if i == 0 {
                true
            } else if i == 1 {
                true
            } else {
                x.bit_of((i - 2) as nat)
            },
        }
    }

    fn bit_count() -> usize {
        34
    }

    fn get(&self, index: usize) -> (r: bool) {
        match self {
            ADT::A(x) => {
                if index == 0 {
                    false
                } else if index == 1 {
                    false
                } else if index < 10 {
                    x.get(index - 2)
                } else {
                    proof {
                        vstd::arithmetic::power2::lemma2_to64();
                        lemma_high_bit_clear(*x as nat, 8, (index - 2) as nat);
                    }
                    false
                }
            },
            ADT::B(x) => {
                if index == 0 {
                    false
                } else if index == 1 {
                    true
                } else if index < 18 {
                    x.get(index - 2)
                } else {
                    proof {
                        vstd::arithmetic::power2::lemma2_to64();
                        lemma_high_bit_clear(*x as nat, 16, (index - 2) as nat);
                    }
                    false
                }
            },
            ADT::C(x) => {
                if index == 0 {
                    true
                } else if index == 1 {
                    true
                } else {
                    x.get(index - 2)
                }
            },
        }
    }
}

/// A value below `2^w` has no bit set at positions `w` and above.
proof fn lemma_high_bit_clear(v: nat, w: nat, i: nat)
    requires
        v < vstd::arithmetic::power2::pow2(w),
        i >= w,
    ensures
        !nat_bit(v, i),
{
    if i > w {
        vstd::arithmetic::power2::lemma_pow2_strictly_increases(w, i);
    }
    lemma_basic_div(v as int, vstd::arithmetic::power2::pow2(i) as int);
}

/// A name of any length other than one matches none of the one-letter
/// members.
proof fn lemma_one_char_names(name: Seq<char>)
    requires
        name.len() != 1,
    ensures
        forall|c: char| name != seq![c],
{
}

/// A one-character name equals the one-character literal exactly when the
/// characters agree.
proof fn lemma_one_char_eq(name: Seq<char>, c: char)
    requires
        name.len() == 1,
    ensures
        (name == seq![c]) == (name[0] == c),
{
    if name[0] == c {
        assert(name =~= seq![c]);
    }
}

/// Shared selector for the three-member structs: maps the one-letter names
/// `a`, `b`, `c` to the given offsets and anything else to zero.
fn member_select(name: &str, oa: usize, ob: usize, oc: usize) -> (r: usize)
    ensures
        name@ == "a"@ ==> r == oa,
        name@ == "b"@ ==> r == ob,
        name@ == "c"@ ==> r == oc,
{
    proof {
        reveal_strlit("a");
        reveal_strlit("b");
        reveal_strlit("c");
    }
    let n = name.unicode_len();
    if n != 1 {
        proof {
            lemma_one_char_names(name@);
        }
        return 0;
    }
    let ch = name.get_char(0);
    let r: usize = if ch == 'a' {
        oa
    } else if ch == 'b' {
        ob
    } else if ch == 'c' {
        oc
    } else {
        0
    };
    proof {
        lemma_one_char_eq(name@, 'a');
        lemma_one_char_eq(name@, 'b');
        lemma_one_char_eq(name@, 'c');
    }
    r
}

} // verus!
