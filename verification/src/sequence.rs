//! Sequence numbers that count up and wrap around.

use vstd::arithmetic::div_mod::*;
use vstd::prelude::*;

verus! {

/// An unsigned integer type whose values serve as sequence numbers.
pub trait SeqNumber: Copy + Sized {
    /// The value as a number.
    spec fn number(self) -> nat;

    /// How many values the type has.
    spec fn span() -> nat;

    /// The value that comes next: one more, and zero after the largest.
    spec fn following(self) -> Self;

    /// A value is told by its number, lies below the span, and is followed
    /// by the value one higher, counted modulo the span.
    proof fn lemma_following(self, other: Self)
        ensures
            self.number() < Self::span(),
            self.number() == other.number() ==> self == other,
            self.following().number() == (self.number() + 1) % Self::span(),
    ;

    /// Computes the value that comes next.
    fn successor(self) -> (next: Self)
        ensures
            next == self.following(),
    ;
}

impl SeqNumber for u8 {
    open spec fn number(self) -> nat {
        self as nat
    }

    open spec fn span() -> nat {
        0x100
    }

    open spec fn following(self) -> u8 {
        if self == u8::MAX {
            0
        } else {
            (self + 1) as u8
        }
    }

    proof fn lemma_following(self, other: u8) {
    }

    fn successor(self) -> (next: u8) {
        self.wrapping_add(1)
    }
}

impl SeqNumber for u16 {
    open spec fn number(self) -> nat {
        self as nat
    }

    open spec fn span() -> nat {
        0x1_0000
    }

    open spec fn following(self) -> u16 {
        if self == u16::MAX {
            0
        } else {
            (self + 1) as u16
        }
    }

    proof fn lemma_following(self, other: u16) {
    }

    fn successor(self) -> (next: u16) {
        self.wrapping_add(1)
    }
}

impl SeqNumber for u32 {
    open spec fn number(self) -> nat {
        self as nat
    }

    open spec fn span() -> nat {
        0x1_0000_0000
    }

    open spec fn following(self) -> u32 {
        if self == u32::MAX {
            0
        } else {
            (self + 1) as u32
        }
    }

    proof fn lemma_following(self, other: u32) {
    }

    fn successor(self) -> (next: u32) {
        self.wrapping_add(1)
    }
}

impl SeqNumber for u64 {
    open spec fn number(self) -> nat {
        self as nat
    }

    open spec fn span() -> nat {
        0x1_0000_0000_0000_0000
    }

    open spec fn following(self) -> u64 {
        if self == u64::MAX {
            0
        } else {
            (self + 1) as u64
        }
    }

    proof fn lemma_following(self, other: u64) {
    }

    fn successor(self) -> (next: u64) {
        self.wrapping_add(1)
    }
}

/// The value that comes `n` steps after `start`.
pub open spec fn nth_following<T: SeqNumber>(start: T, n: nat) -> T
    decreases n,
{
    if n == 0 {
        start
    } else {
        nth_following(start, (n - 1) as nat).following()
    }
}

/// A counter that hands out one sequence number after the other.
///
/// It is not synchronised: whoever shares it serialises the calls.
pub struct SeqGenerator<T: SeqNumber>(T);

impl<T: SeqNumber> View for SeqGenerator<T> {
    type V = T;

    /// The value that the next call of `get` hands out.
    closed spec fn view(&self) -> T {
        self.0
    }
}

impl<T: SeqNumber> SeqGenerator<T> {
    /// A generator whose first number is `value`.
    pub fn new(value: T) -> (generator: Self)
        ensures
            generator@ == value,
    {
        SeqGenerator(value)
    }

    /// Hands out the current number and moves on to the one that follows it,
    /// which after the largest number is zero.
    pub fn get(&mut self) -> (value: T)
        ensures
            value == old(self)@,
            final(self)@ == old(self)@.following(),
    {
        let value = self.0;
        self.0 = value.successor();
        value
    }
}

/// The call number `n` (counted from zero) on a generator that started at
/// `start` hands out `start + n`, counted modulo the span of the type. From a
/// start at zero the first span-many calls so hand out 0, 1, 2, ... up to the
/// largest value, and the call after that hands out zero again.
pub proof fn lemma_nth_following<T: SeqNumber>(start: T, n: nat)
    ensures
        nth_following(start, n).number() == (start.number() + n) % T::span(),
        start.number() == 0 && n < T::span() ==> nth_following(start, n).number() == n,
        start.number() == 0 && n == T::span() ==> nth_following(start, n) == start,
    decreases n,
{
    let span = T::span() as int;
    start.lemma_following(start);
    if n == 0 {
        lemma_small_mod(start.number(), T::span());
    } else {
        let before = nth_following(start, (n - 1) as nat);
        lemma_nth_following(start, (n - 1) as nat);
        before.lemma_following(before);
        let sum = (start.number() + n - 1) as int;
        lemma_add_mod_noop(sum, 1, span);
        lemma_mod_twice(sum, span);
        if span > 1 {
            lemma_small_mod(1, T::span());
        }
    }
    if start.number() == 0 && n < T::span() {
        lemma_small_mod(n, T::span());
    }
    if start.number() == 0 && n == T::span() {
        lemma_mod_self_0(span);
        nth_following(start, n).lemma_following(start);
    }
}

/// Within one span of calls no number is handed out twice.
pub proof fn lemma_numbers_distinct<T: SeqNumber>(start: T, i: nat, j: nat)
    requires
        i < j,
        j - i < T::span(),
    ensures
        nth_following(start, i) != nth_following(start, j),
{
    let span = T::span() as int;
    lemma_nth_following(start, i);
    lemma_nth_following(start, j);
    let a = (start.number() + i) as int;
    let b = (start.number() + j) as int;
    if a % span == b % span {
        lemma_mod_equivalence(b, a, span);
        lemma_small_mod((j - i) as nat, T::span());
    }
}

} // verus!
