//! Fixed-width positional numerals.
//!
//! An identifier has several textual and binary forms, and each of them is the
//! same number written with a fixed count of digits in some base: 16 bytes in
//! base 256, 32 characters in base 16, 22 characters in base 62. This module
//! holds what they share: what a digit sequence is worth, which digits a value
//! has, and that the two are inverse to each other.

use vstd::arithmetic::div_mod::*;
use vstd::arithmetic::mul::*;
use vstd::arithmetic::power::*;
use vstd::prelude::*;

verus! {

/// The number that `digits` spell in `base`, most significant digit first.
pub open spec fn numeral_value(digits: Seq<int>, base: int) -> int
    decreases digits.len(),
{
    if digits.len() == 0 {
        0
    } else {
        numeral_value(digits.drop_last(), base) * base + digits.last()
    }
}

/// Digit `i`, counted from the most significant end, of `value` written with
/// `width` digits in `base`.
pub open spec fn digit_at(value: int, base: int, width: int, i: int) -> int {
    (value / pow(base, (width - 1 - i) as nat)) % base
}

/// The `width` digits of `value` in `base`, most significant first. Where
/// `value` needs more than `width` digits, these are its lowest `width` ones.
pub open spec fn numeral_digits(value: int, base: int, width: nat) -> Seq<int> {
    Seq::new(width, |i: int| digit_at(value, base, width as int, i))
}

/// Every entry of `digits` is a digit of `base`.
pub open spec fn digits_below(digits: Seq<int>, base: int) -> bool {
    forall|i: int| 0 <= i < digits.len() ==> 0 <= #[trigger] digits[i] < base
}

/// A digit of a value lies within its base.
pub proof fn lemma_digit_at_bound(value: int, base: int, width: int, i: int)
    requires
        base > 0,
    ensures
        0 <= digit_at(value, base, width, i) < base,
{
    lemma_mod_bound(value / pow(base, (width - 1 - i) as nat), base);
}

/// What digits spell is not negative and needs no more digits than they are.
pub proof fn lemma_value_bound(digits: Seq<int>, base: int)
    requires
        base > 0,
        digits_below(digits, base),
    ensures
        0 <= numeral_value(digits, base) < pow(base, digits.len()),
    decreases digits.len(),
{
    if digits.len() == 0 {
        lemma_pow0(base);
    } else {
        let init = digits.drop_last();
        let high = pow(base, init.len());
        lemma_value_bound(init, base);
        assert(pow(base, digits.len()) == high * base) by {
            lemma_pow_adds(base, init.len(), 1);
            lemma_pow1(base);
        }
        assert(0 <= numeral_value(init, base) * base <= (high - 1) * base) by {
            lemma_mul_nonnegative(numeral_value(init, base), base);
            lemma_mul_inequality(numeral_value(init, base), high - 1, base);
        }
        assert((high - 1) * base == high * base - base) by {
            lemma_mul_is_distributive_sub_other_way(base, high, 1);
        }
    }
}

/// Dropping one more digit of a value divides what is left by the base.
pub proof fn lemma_drop_digit(value: int, base: int, k: nat)
    requires
        base > 0,
        value >= 0,
    ensures
        (value / pow(base, k)) / base == value / pow(base, k + 1),
        pow(base, k) > 0,
{
    lemma_pow_positive(base, k);
    lemma_pow_adds(base, k, 1);
    lemma_pow1(base);
    lemma_div_denominator(value, pow(base, k), base);
}

/// The first `k` digits of a value spell the value without its last
/// `width - k` digits.
proof fn lemma_value_of_leading_digits(value: int, base: int, width: nat, k: nat)
    requires
        base > 0,
        0 <= value < pow(base, width),
        k <= width,
    ensures
        numeral_value(numeral_digits(value, base, width).take(k as int), base) == value / pow(
            base,
            (width - k) as nat,
        ),
    decreases k,
{
    let digits = numeral_digits(value, base, width);
    if k == 0 {
        lemma_basic_div(value, pow(base, width));
    } else {
        let j = (k - 1) as nat;
        lemma_value_of_leading_digits(value, base, width, j);
        assert(digits.take(k as int).drop_last() =~= digits.take(j as int));
        let low = pow(base, (width - k) as nat);
        lemma_pow_positive(base, (width - k) as nat);
        assert(pow(base, (width - j) as nat) == low * base) by {
            lemma_pow_adds(base, (width - k) as nat, 1);
            lemma_pow1(base);
        }
        let q = value / low;
        assert(value / (low * base) == q / base) by {
            lemma_div_denominator(value, low, base);
        }
        assert((q / base) * base + q % base == q) by {
            lemma_fundamental_div_mod(q, base);
            lemma_mul_is_commutative(base, q / base);
        }
    }
}

/// Writing a value with `width` digits and reading the digits back gives the
/// value, as long as `width` digits can hold it.
pub proof fn lemma_value_of_digits(value: int, base: int, width: nat)
    requires
        base > 0,
        0 <= value < pow(base, width),
    ensures
        numeral_value(numeral_digits(value, base, width), base) == value,
{
    let digits = numeral_digits(value, base, width);
    lemma_value_of_leading_digits(value, base, width, width);
    assert(digits.take(width as int) =~= digits);
    lemma_pow0(base);
}

/// What digits spell, without its last `digits.len() - k` digits, is what
/// the first `k` of the digits spell.
proof fn lemma_leading_digits_of_value(digits: Seq<int>, base: int, k: nat)
    requires
        base > 0,
        digits_below(digits, base),
        k <= digits.len(),
    ensures
        numeral_value(digits, base) / pow(base, (digits.len() - k) as nat) == numeral_value(
            digits.take(k as int),
            base,
        ),
    decreases digits.len() - k,
{
    let value = numeral_value(digits, base);
    lemma_value_bound(digits, base);
    if k == digits.len() {
        lemma_pow0(base);
        assert(digits.take(k as int) =~= digits);
    } else {
        let longer = digits.take(k as int + 1);
        lemma_leading_digits_of_value(digits, base, k + 1);
        lemma_drop_digit(value, base, (digits.len() - k - 1) as nat);
        assert(longer.drop_last() =~= digits.take(k as int));
        lemma_fundamental_div_mod_converse(
            numeral_value(longer, base),
            base,
            numeral_value(digits.take(k as int), base),
            digits[k as int],
        );
    }
}

/// Reading digits and writing the value with as many digits gives the same
/// digits: a fixed-width numeral is the only one of its value.
pub proof fn lemma_digits_of_value(digits: Seq<int>, base: int)
    requires
        base > 0,
        digits_below(digits, base),
    ensures
        numeral_digits(numeral_value(digits, base), base, digits.len()) == digits,
{
    let value = numeral_value(digits, base);
    let width = digits.len();
    assert forall|i: int| 0 <= i < width implies digit_at(value, base, width as int, i)
        == digits[i] by {
        let longer = digits.take(i + 1);
        lemma_leading_digits_of_value(digits, base, (i + 1) as nat);
        assert(longer.drop_last() =~= digits.take(i));
        lemma_fundamental_div_mod_converse(
            numeral_value(longer, base),
            base,
            numeral_value(digits.take(i), base),
            digits[i],
        );
    }
}

} // verus!
