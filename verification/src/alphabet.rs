//! The two digit alphabets of identifier texts.
//!
//! Base 16 writes its digits as `0-9a-f`, base 62 as `0-9a-zA-Z`; in both a
//! digit's value is the place of its character in the alphabet.

use vstd::prelude::*;

verus! {

/// The digit that `c` stands for in base 16, if it stands for one.
pub open spec fn base16_value(c: char) -> Option<int> {
    if '0' <= c <= '9' {
        Some(c as int - '0' as int)
    } else if 'a' <= c <= 'f' {
        Some(c as int - 'a' as int + 10)
    } else {
        None
    }
}

/// The character of the base 16 digit `d`.
pub open spec fn base16_char(d: int) -> char {
    if d < 10 {
        ('0' as int + d) as char
    } else {
        ('a' as int + d - 10) as char
    }
}

/// The digit that `c` stands for in base 62, if it stands for one.
pub open spec fn base62_value(c: char) -> Option<int> {
    if '0' <= c <= '9' {
        Some(c as int - '0' as int)
    } else if 'a' <= c <= 'z' {
        Some(c as int - 'a' as int + 10)
    } else if 'A' <= c <= 'Z' {
        Some(c as int - 'A' as int + 36)
    } else {
        None
    }
}

/// The character of the base 62 digit `d`.
pub open spec fn base62_char(d: int) -> char {
    if d < 10 {
        ('0' as int + d) as char
    } else if d < 36 {
        ('a' as int + d - 10) as char
    } else {
        ('A' as int + d - 36) as char
    }
}

/// Every character of `text` is a digit of base 16.
pub open spec fn is_base16(text: Seq<char>) -> bool {
    forall|i: int| 0 <= i < text.len() ==> base16_value(#[trigger] text[i]) is Some
}

/// Every character of `text` is a digit of base 62.
pub open spec fn is_base62(text: Seq<char>) -> bool {
    forall|i: int| 0 <= i < text.len() ==> base62_value(#[trigger] text[i]) is Some
}

/// The digits that a base 16 text spells, in the order of the text.
pub open spec fn base16_digits(text: Seq<char>) -> Seq<int> {
    Seq::new(text.len(), |i: int| base16_value(text[i]).unwrap())
}

/// The digits that a base 62 text spells, in the order of the text.
pub open spec fn base62_digits(text: Seq<char>) -> Seq<int> {
    Seq::new(text.len(), |i: int| base62_value(text[i]).unwrap())
}

/// The text that spells `digits` in base 16.
pub open spec fn base16_spelling(digits: Seq<int>) -> Seq<char> {
    Seq::new(digits.len(), |i: int| base16_char(digits[i]))
}

/// The text that spells `digits` in base 62.
pub open spec fn base62_spelling(digits: Seq<int>) -> Seq<char> {
    Seq::new(digits.len(), |i: int| base62_char(digits[i]))
}

/// A base 16 digit's character stands for that digit, and each character that
/// stands for a digit is the character of that digit.
pub proof fn lemma_base16_alphabet(d: int, c: char)
    ensures
        0 <= d < 16 ==> base16_value(base16_char(d)) == Some(d),
        base16_value(c) matches Some(v) ==> 0 <= v < 16 && base16_char(v) == c,
{
}

/// A base 62 digit's character stands for that digit, and each character that
/// stands for a digit is the character of that digit.
pub proof fn lemma_base62_alphabet(d: int, c: char)
    ensures
        0 <= d < 62 ==> base62_value(base62_char(d)) == Some(d),
        base62_value(c) matches Some(v) ==> 0 <= v < 62 && base62_char(v) == c,
{
}

/// Reading back the spelling of base 16 digits gives the digits.
pub proof fn lemma_base16_spelling(digits: Seq<int>)
    requires
        forall|i: int| 0 <= i < digits.len() ==> 0 <= #[trigger] digits[i] < 16,
    ensures
        is_base16(base16_spelling(digits)),
        base16_digits(base16_spelling(digits)) == digits,
{
    let text = base16_spelling(digits);
    assert forall|i: int| 0 <= i < text.len() implies base16_value(#[trigger] text[i]) == Some(
        digits[i],
    ) by {
        lemma_base16_alphabet(digits[i], '0');
    }
}

/// Reading back the spelling of base 62 digits gives the digits.
pub proof fn lemma_base62_spelling(digits: Seq<int>)
    requires
        forall|i: int| 0 <= i < digits.len() ==> 0 <= #[trigger] digits[i] < 62,
    ensures
        is_base62(base62_spelling(digits)),
        base62_digits(base62_spelling(digits)) == digits,
{
    let text = base62_spelling(digits);
    assert forall|i: int| 0 <= i < text.len() implies base62_value(#[trigger] text[i]) == Some(
        digits[i],
    ) by {
        lemma_base62_alphabet(digits[i], '0');
    }
}

/// Spelling the digits that a base 16 text was read as gives the text.
pub proof fn lemma_base16_reading(text: Seq<char>)
    requires
        is_base16(text),
    ensures
        forall|i: int| 0 <= i < text.len() ==> 0 <= #[trigger] base16_digits(text)[i] < 16,
        base16_spelling(base16_digits(text)) == text,
{
    assert forall|i: int| 0 <= i < text.len() implies 0 <= #[trigger] base16_digits(text)[i] < 16
        && base16_char(base16_digits(text)[i]) == text[i] by {
        lemma_base16_alphabet(0, text[i]);
    }
}

/// Spelling the digits that a base 62 text was read as gives the text.
pub proof fn lemma_base62_reading(text: Seq<char>)
    requires
        is_base62(text),
    ensures
        forall|i: int| 0 <= i < text.len() ==> 0 <= #[trigger] base62_digits(text)[i] < 62,
        base62_spelling(base62_digits(text)) == text,
{
    assert forall|i: int| 0 <= i < text.len() implies 0 <= #[trigger] base62_digits(text)[i] < 62
        && base62_char(base62_digits(text)[i]) == text[i] by {
        lemma_base62_alphabet(0, text[i]);
    }
}

/// The base 16 digit of a character, or `None` for a character outside the
/// alphabet.
pub(crate) fn base16_digit(c: char) -> (d: Option<u8>)
    ensures
        match d {
            Some(v) => base16_value(c) == Some(v as int),
            None => base16_value(c) is None,
        },
{
    if '0' <= c && c <= '9' {
        Some((c as u32 - '0' as u32) as u8)
    } else if 'a' <= c && c <= 'f' {
        Some((c as u32 - 'a' as u32 + 10) as u8)
    } else {
        None
    }
}

/// The base 62 digit of a character, or `None` for a character outside the
/// alphabet.
pub(crate) fn base62_digit(c: char) -> (d: Option<u8>)
    ensures
        match d {
            Some(v) => base62_value(c) == Some(v as int),
            None => base62_value(c) is None,
        },
{
    if '0' <= c && c <= '9' {
        Some((c as u32 - '0' as u32) as u8)
    } else if 'a' <= c && c <= 'z' {
        Some((c as u32 - 'a' as u32 + 10) as u8)
    } else if 'A' <= c && c <= 'Z' {
        Some((c as u32 - 'A' as u32 + 36) as u8)
    } else {
        None
    }
}

/// The character of a base 16 digit.
pub(crate) fn base16_symbol(d: u8) -> (c: char)
    requires
        d < 16,
    ensures
        c == base16_char(d as int),
{
    if d < 10 {
        (48u8 + d) as char
    } else {
        (97u8 + (d - 10)) as char
    }
}

/// The character of a base 62 digit.
pub(crate) fn base62_symbol(d: u8) -> (c: char)
    requires
        d < 62,
    ensures
        c == base62_char(d as int),
{
    if d < 10 {
        (48u8 + d) as char
    } else if d < 36 {
        (97u8 + (d - 10)) as char
    } else {
        (65u8 + (d - 36)) as char
    }
}

/// Appends one character to a string.
///
/// This is `String::push` of the standard library. The contract states what
/// its documentation says: the character is added at the end and the rest of
/// the string stays as it was.
#[verifier::external_body]
fn push_char(s: &mut String, c: char)
    ensures
        final(s)@ == old(s)@.push(c),
{
    s.push(c)
}

/// Spells a run of base 16 digits as text.
pub(crate) fn base16_string(digits: &[u8]) -> (s: String)
    requires
        forall|i: int| 0 <= i < digits@.len() ==> #[trigger] digits@[i] < 16,
    ensures
        s@.len() == digits@.len(),
        forall|i: int| 0 <= i < digits@.len() ==> #[trigger] s@[i] == base16_char(digits@[i] as int),
{
    let mut s = String::new();
    for i in 0..digits.len()
        invariant
            forall|j: int| 0 <= j < digits@.len() ==> #[trigger] digits@[j] < 16,
            s@.len() == i,
            forall|j: int| 0 <= j < i ==> #[trigger] s@[j] == base16_char(digits@[j] as int),
    {
        push_char(&mut s, base16_symbol(digits[i]));
    }
    s
}

/// Spells a run of base 62 digits as text.
pub(crate) fn base62_string(digits: &[u8]) -> (s: String)
    requires
        forall|i: int| 0 <= i < digits@.len() ==> #[trigger] digits@[i] < 62,
    ensures
        s@.len() == digits@.len(),
        forall|i: int| 0 <= i < digits@.len() ==> #[trigger] s@[i] == base62_char(digits@[i] as int),
{
    let mut s = String::new();
    for i in 0..digits.len()
        invariant
            forall|j: int| 0 <= j < digits@.len() ==> #[trigger] digits@[j] < 62,
            s@.len() == i,
            forall|j: int| 0 <= j < i ==> #[trigger] s@[j] == base62_char(digits@[j] as int),
    {
        push_char(&mut s, base62_symbol(digits[i]));
    }
    s
}

} // verus!
