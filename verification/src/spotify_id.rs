//! The 128-bit entity identifier and its three fixed-width forms.

use crate::alphabet::{
    base16_digit, base16_digits, base16_spelling, base16_string, base16_value, base62_digit,
    base62_digits, base62_spelling, base62_string, base62_value, is_base16, is_base62,
    lemma_base16_reading, lemma_base16_spelling, lemma_base62_reading, lemma_base62_spelling,
};
use crate::numeral::{
    digit_at, lemma_digit_at_bound, lemma_digits_of_value, lemma_drop_digit, lemma_value_bound,
    lemma_value_of_digits, numeral_digits, numeral_value,
};
use std::cmp::Ordering;
use vstd::arithmetic::div_mod::*;
use vstd::arithmetic::power::*;
use vstd::prelude::*;

verus! {

/// A 128-bit identifier of a catalog entity.
///
/// The same value can be written as 16 big-endian bytes, as 32 characters in
/// base 16 and as 22 characters in base 62. Identifiers are equal when their
/// values are and ordered as their values are, whichever form they were read
/// from.
#[derive(Debug, Copy, Clone, PartialEq, Eq, Ord, Hash, Structural)]
pub struct SpotifyId(u128);

/// Why a text or a byte string is not an identifier.
#[derive(Debug, Copy, Clone, PartialEq, Eq, Hash, Structural)]
pub enum SpotifyIdError {
    /// The text holds a character outside the alphabet of its base.
    InvalidDigit,
    /// The byte string is not exactly 16 bytes long.
    WrongLength,
}

/// One more than the largest identifier value: 2 to the power 128.
pub open spec fn id_space() -> int {
    0x1_0000_0000_0000_0000_0000_0000_0000_0000int
}

/// The bytes of a byte string as digits of base 256.
pub open spec fn byte_digits(bytes: Seq<u8>) -> Seq<int> {
    Seq::new(bytes.len(), |i: int| bytes[i] as int)
}

/// The 16 bytes of an identifier value, most significant first.
pub open spec fn raw_bytes(value: u128) -> Seq<u8> {
    Seq::new(16, |i: int| digit_at(value as int, 256, 16, i) as u8)
}

/// The 32 characters of an identifier value in base 16, most significant
/// first and padded with `0` on the left.
pub open spec fn base16_text(value: u128) -> Seq<char> {
    base16_spelling(numeral_digits(value as int, 16, 32))
}

/// The 22 characters of an identifier value in base 62, most significant
/// first and padded with `0` on the left.
pub open spec fn base62_text(value: u128) -> Seq<char> {
    base62_spelling(numeral_digits(value as int, 62, 22))
}

/// What reading a base 16 text as an identifier gives: the number that its
/// digits spell, reduced to 128 bits, whatever the length of the text, and
/// `InvalidDigit` where a character is none of `0-9a-f`.
pub open spec fn parse_base16(text: Seq<char>) -> Result<u128, SpotifyIdError> {
    if is_base16(text) {
        Ok((numeral_value(base16_digits(text), 16) % id_space()) as u128)
    } else {
        Err(SpotifyIdError::InvalidDigit)
    }
}

/// What reading a base 62 text as an identifier gives: the number that its
/// digits spell, reduced to 128 bits, whatever the length of the text, and
/// `InvalidDigit` where a character is none of `0-9a-zA-Z`.
pub open spec fn parse_base62(text: Seq<char>) -> Result<u128, SpotifyIdError> {
    if is_base62(text) {
        Ok((numeral_value(base62_digits(text), 62) % id_space()) as u128)
    } else {
        Err(SpotifyIdError::InvalidDigit)
    }
}

/// What reading a byte string as an identifier gives: the big-endian value of
/// exactly 16 bytes, and `WrongLength` for any other length.
pub open spec fn parse_raw(bytes: Seq<u8>) -> Result<u128, SpotifyIdError> {
    if bytes.len() == 16 {
        Ok(numeral_value(byte_digits(bytes), 256) as u128)
    } else {
        Err(SpotifyIdError::WrongLength)
    }
}

impl View for SpotifyId {
    type V = u128;

    closed spec fn view(&self) -> u128 {
        self.0
    }
}

impl PartialOrd for SpotifyId {
    fn partial_cmp(&self, other: &SpotifyId) -> (r: Option<Ordering>) {
        if self.0 < other.0 {
            Some(Ordering::Less)
        } else if self.0 > other.0 {
            Some(Ordering::Greater)
        } else {
            Some(Ordering::Equal)
        }
    }
}

impl vstd::std_specs::cmp::PartialOrdSpecImpl for SpotifyId {
    open spec fn obeys_partial_cmp_spec() -> bool {
        true
    }

    open spec fn partial_cmp_spec(&self, other: &SpotifyId) -> Option<Ordering> {
        if self@ < other@ {
            Some(Ordering::Less)
        } else if self@ > other@ {
            Some(Ordering::Greater)
        } else {
            Some(Ordering::Equal)
        }
    }
}

impl SpotifyId {
    /// Two identifiers are the same exactly when their values are.
    pub proof fn lemma_equal_by_value(self, other: SpotifyId)
        ensures
            (self == other) <==> (self@ == other@),
    {
    }

    /// Reads an identifier from base 16 text.
    ///
    /// The text may have any length; one that spells more than 128 bits keeps
    /// the lowest 128. A character outside `0-9a-f` gives `InvalidDigit`.
    pub fn from_base16(id: &str) -> (res: Result<SpotifyId, SpotifyIdError>)
        ensures
            match res {
                Ok(parsed) => parse_base16(id@) == Ok::<u128, SpotifyIdError>(parsed@),
                Err(e) => parse_base16(id@) == Err::<u128, SpotifyIdError>(e),
            },
            res is Ok <==> is_base16(id@),
            res is Err ==> res == Err::<SpotifyId, SpotifyIdError>(SpotifyIdError::InvalidDigit),
    {
        let mut n: u128 = 0;
        for c in it: id.chars()
            invariant
                it.seq() == id@,
                is_base16(id@.take(it.index() as int)),
                n == numeral_value(base16_digits(id@.take(it.index() as int)), 16) % id_space(),
        {
            let ghost k = it.index() as int;
            let d: u128 = match base16_digit(c) {
                None => return Err(SpotifyIdError::InvalidDigit),
                Some(x) => x as u128,
            };
            proof {
                let digits = base16_digits(id@.take(k));
                let longer = base16_digits(id@.take(k + 1));
                assert(longer.drop_last() =~= digits);
                lemma_value_bound(digits, 16);
                lemma_wrapping_step(numeral_value(digits, 16), n, 16, d);
            }
            n = n.wrapping_mul(16).wrapping_add(d);
        }
        proof {
            assert(id@.take(id@.len() as int) =~= id@);
        }
        Ok(SpotifyId(n))
    }

    /// Reads an identifier from base 62 text.
    ///
    /// The text may have any length; one that spells more than 128 bits keeps
    /// the lowest 128. A character outside `0-9a-zA-Z` gives `InvalidDigit`.
    pub fn from_base62(id: &str) -> (res: Result<SpotifyId, SpotifyIdError>)
        ensures
            match res {
                Ok(parsed) => parse_base62(id@) == Ok::<u128, SpotifyIdError>(parsed@),
                Err(e) => parse_base62(id@) == Err::<u128, SpotifyIdError>(e),
            },
            res is Ok <==> is_base62(id@),
            res is Err ==> res == Err::<SpotifyId, SpotifyIdError>(SpotifyIdError::InvalidDigit),
    {
        let mut n: u128 = 0;
        for c in it: id.chars()
            invariant
                it.seq() == id@,
                is_base62(id@.take(it.index() as int)),
                n == numeral_value(base62_digits(id@.take(it.index() as int)), 62) % id_space(),
        {
            let ghost k = it.index() as int;
            let d: u128 = match base62_digit(c) {
                None => return Err(SpotifyIdError::InvalidDigit),
                Some(x) => x as u128,
            };
            proof {
                let digits = base62_digits(id@.take(k));
                let longer = base62_digits(id@.take(k + 1));
                assert(longer.drop_last() =~= digits);
                lemma_value_bound(digits, 62);
                lemma_wrapping_step(numeral_value(digits, 62), n, 62, d);
            }
            n = n.wrapping_mul(62).wrapping_add(d);
        }
        proof {
            assert(id@.take(id@.len() as int) =~= id@);
        }
        Ok(SpotifyId(n))
    }

    /// Reads an identifier from its 16 big-endian bytes.
    ///
    /// A byte string of any other length gives `WrongLength`.
    pub fn from_raw(data: &[u8]) -> (res: Result<SpotifyId, SpotifyIdError>)
        ensures
            match res {
                Ok(parsed) => parse_raw(data@) == Ok::<u128, SpotifyIdError>(parsed@),
                Err(e) => parse_raw(data@) == Err::<u128, SpotifyIdError>(e),
            },
            res is Ok <==> data@.len() == 16,
            res is Err ==> res == Err::<SpotifyId, SpotifyIdError>(SpotifyIdError::WrongLength),
    {
        if data.len() != 16 {
            return Err(SpotifyIdError::WrongLength);
        }
        let ghost digits = byte_digits(data@);
        let mut n: u128 = 0;
        proof {
            lemma_pow0(256);
        }
        for i in 0..16usize
            invariant
                data@.len() == 16,
                digits == byte_digits(data@),
                n == numeral_value(digits.take(i as int), 256),
                n < pow(256, i as nat),
        {
            proof {
                assert(digits.take(i + 1).drop_last() =~= digits.take(i as int));
                lemma_pow_adds(256, i as nat, 1);
                lemma_pow1(256);
                lemma_pow_increases(256, (i + 1) as nat, 16);
                lemma_pow_256_16();
            }
            n = n * 256 + data[i] as u128;
        }
        proof {
            assert(digits.take(16) =~= digits);
        }
        Ok(SpotifyId(n))
    }

    /// Writes the identifier as 32 characters of base 16, padded with `0` on
    /// the left.
    pub fn to_base16(&self) -> (s: String)
        ensures
            s@ == base16_text(self@),
            s@.len() == 32,
    {
        let mut data = [0u8; 32];
        let mut n = self.0;
        proof {
            lemma_pow0(16);
        }
        for i in 0..32usize
            invariant
                n == self.0 as int / pow(16, i as nat),
                forall|j: int|
                    32 - i <= j < 32 ==> #[trigger] data@[j] == digit_at(self.0 as int, 16, 32, j),
        {
            proof {
                lemma_drop_digit(self.0 as int, 16, i as nat);
                assert(n & 0xf == n % 16) by (bit_vector);
                assert(n >> 4 == n / 16) by (bit_vector);
            }
            data[31 - i] = (n & 0xf) as u8;
            n = n >> 4;
        }
        proof {
            assert forall|j: int| 0 <= j < 32 implies #[trigger] data@[j] < 16 by {
                lemma_digit_at_bound(self.0 as int, 16, 32, j);
            }
        }
        base16_string(data.as_slice())
    }

    /// Writes the identifier as 22 characters of base 62, padded with `0` on
    /// the left.
    pub fn to_base62(&self) -> (s: String)
        ensures
            s@ == base62_text(self@),
            s@.len() == 22,
    {
        let mut data = [0u8; 22];
        let mut n = self.0;
        proof {
            lemma_pow0(62);
        }
        for i in 0..22usize
            invariant
                n == self.0 as int / pow(62, i as nat),
                forall|j: int|
                    22 - i <= j < 22 ==> #[trigger] data@[j] == digit_at(self.0 as int, 62, 22, j),
        {
            proof {
                lemma_drop_digit(self.0 as int, 62, i as nat);
            }
            data[21 - i] = (n % 62) as u8;
            n = n / 62;
        }
        proof {
            assert forall|j: int| 0 <= j < 22 implies #[trigger] data@[j] < 62 by {
                lemma_digit_at_bound(self.0 as int, 62, 22, j);
            }
        }
        base62_string(data.as_slice())
    }

    /// Writes the identifier as its 16 bytes, most significant first.
    pub fn to_raw(&self) -> (data: [u8; 16])
        ensures
            data@ == raw_bytes(self@),
            data@.len() == 16,
    {
        let mut data = [0u8; 16];
        let mut n = self.0;
        proof {
            lemma_pow0(256);
        }
        for i in 0..16usize
            invariant
                n == self.0 as int / pow(256, i as nat),
                forall|j: int|
                    16 - i <= j < 16 ==> #[trigger] data@[j] == digit_at(self.0 as int, 256, 16, j),
        {
            proof {
                lemma_drop_digit(self.0 as int, 256, i as nat);
            }
            data[15 - i] = (n % 256) as u8;
            n = n / 256;
        }
        data
    }
}

/// One step of reading a numeral into 128 bits: multiplying and adding with
/// wraparound keeps the value of the digits read so far, reduced to 128 bits.
proof fn lemma_wrapping_step(exact: int, n: u128, base: u128, d: u128)
    requires
        exact >= 0,
        n == exact % id_space(),
        d < base,
    ensures
        vstd::wrapping::u128_specs::wrapping_add(
            vstd::wrapping::u128_specs::wrapping_mul(n, base),
            d,
        ) == (exact * base + d) % id_space(),
{
    let m = id_space();
    let product = vstd::wrapping::u128_specs::wrapping_mul(n, base);
    assert((n * base) % m == (exact * base) % m) by {
        lemma_mul_mod_noop_left(exact, base as int, m);
    }
    assert((product + d) % m == (exact * base + d) % m) by {
        lemma_add_mod_noop(exact * base, d as int, m);
        lemma_small_mod(d as nat, m as nat);
        lemma_mod_twice(product + d, m);
    }
    if product + d >= m {
        lemma_mod_sub_multiples_vanish(product + d, m);
        lemma_small_mod((product + d - m) as nat, m as nat);
    } else {
        lemma_small_mod((product + d) as nat, m as nat);
    }
}

/// Sixteen digits of base 256 span exactly the identifier values.
proof fn lemma_pow_256_16()
    ensures
        pow(256, 16) == id_space(),
{
    reveal_with_fuel(pow, 17);
}

/// Thirty-two digits of base 16 span exactly the identifier values.
proof fn lemma_pow_16_32()
    ensures
        pow(16, 32) == id_space(),
{
    reveal_with_fuel(pow, 33);
}

/// Twenty-two digits of base 62 are enough for every identifier value.
proof fn lemma_pow_62_22()
    ensures
        pow(62, 22) > id_space(),
{
    reveal_with_fuel(pow, 23);
}

/// Reading the 16 bytes of an identifier value gives the value back.
pub proof fn lemma_raw_round_trip(value: u128)
    ensures
        parse_raw(raw_bytes(value)) == Ok::<u128, SpotifyIdError>(value),
{
    lemma_pow_256_16();
    assert forall|i: int| 0 <= i < 16 implies #[trigger] byte_digits(raw_bytes(value))[i]
        == digit_at(value as int, 256, 16, i) by {
        lemma_digit_at_bound(value as int, 256, 16, i);
    }
    assert(byte_digits(raw_bytes(value)) =~= numeral_digits(value as int, 256, 16));
    lemma_value_of_digits(value as int, 256, 16);
}

/// Reading the base 16 text of an identifier value gives the value back.
pub proof fn lemma_base16_round_trip(value: u128)
    ensures
        parse_base16(base16_text(value)) == Ok::<u128, SpotifyIdError>(value),
{
    let digits = numeral_digits(value as int, 16, 32);
    lemma_pow_16_32();
    assert forall|i: int| 0 <= i < digits.len() implies 0 <= #[trigger] digits[i] < 16 by {
        lemma_digit_at_bound(value as int, 16, 32, i);
    }
    lemma_base16_spelling(digits);
    lemma_value_of_digits(value as int, 16, 32);
    lemma_small_mod(value as nat, id_space() as nat);
}

/// Reading the base 62 text of an identifier value gives the value back.
pub proof fn lemma_base62_round_trip(value: u128)
    ensures
        parse_base62(base62_text(value)) == Ok::<u128, SpotifyIdError>(value),
{
    let digits = numeral_digits(value as int, 62, 22);
    lemma_pow_62_22();
    assert forall|i: int| 0 <= i < digits.len() implies 0 <= #[trigger] digits[i] < 62 by {
        lemma_digit_at_bound(value as int, 62, 22, i);
    }
    lemma_base62_spelling(digits);
    lemma_value_of_digits(value as int, 62, 22);
    lemma_small_mod(value as nat, id_space() as nat);
}

/// Writing the value that 16 bytes were read as gives the same bytes.
pub proof fn lemma_raw_is_canonical(bytes: Seq<u8>)
    requires
        bytes.len() == 16,
    ensures
        parse_raw(bytes) matches Ok(value) && raw_bytes(value) == bytes,
{
    let digits = byte_digits(bytes);
    lemma_pow_256_16();
    lemma_value_bound(digits, 256);
    lemma_digits_of_value(digits, 256);
    let value = numeral_value(digits, 256) as u128;
    assert forall|i: int| 0 <= i < 16 implies #[trigger] raw_bytes(value)[i] == bytes[i] by {
        assert(numeral_digits(value as int, 256, 16)[i] == digits[i]);
    }
}

/// Writing the value that 32 characters of base 16 were read as gives the
/// same characters: the base 16 text of a value is the only text of that
/// length that reads as the value.
pub proof fn lemma_base16_is_canonical(text: Seq<char>)
    requires
        text.len() == 32,
        is_base16(text),
    ensures
        parse_base16(text) matches Ok(value) && base16_text(value) == text,
{
    let digits = base16_digits(text);
    lemma_pow_16_32();
    lemma_base16_reading(text);
    lemma_value_bound(digits, 16);
    lemma_digits_of_value(digits, 16);
    lemma_small_mod(numeral_value(digits, 16) as nat, id_space() as nat);
}

/// Writing the value that 22 characters of base 62 were read as gives the
/// same characters, as long as they spell a number of no more than 128 bits.
pub proof fn lemma_base62_is_canonical(text: Seq<char>)
    requires
        text.len() == 22,
        is_base62(text),
        numeral_value(base62_digits(text), 62) < id_space(),
    ensures
        parse_base62(text) matches Ok(value) && base62_text(value) == text,
{
    let digits = base62_digits(text);
    lemma_base62_reading(text);
    lemma_value_bound(digits, 62);
    lemma_digits_of_value(digits, 62);
    lemma_small_mod(numeral_value(digits, 62) as nat, id_space() as nat);
}

} // verus!
