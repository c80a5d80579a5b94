//! The 160-bit content identifier.

use crate::alphabet::{base16_char, base16_string};
use std::cmp::Ordering;
use vstd::prelude::*;

verus! {

/// A 160-bit identifier of a content blob: 20 opaque bytes.
///
/// Two identifiers are equal when all their bytes are, and they are ordered
/// byte by byte from the front. No number is read into them.
#[derive(Debug, Copy, Clone, Eq, Ord, Hash)]
pub struct FileId(pub [u8; 20]);

/// The two characters of each byte of `bytes` in base 16, high half first.
pub open spec fn hex_text(bytes: Seq<u8>) -> Seq<char> {
    Seq::new(
        2 * bytes.len(),
        |i: int|
            if i % 2 == 0 {
                base16_char(bytes[i / 2] as int / 16)
            } else {
                base16_char(bytes[i / 2] as int % 16)
            },
    )
}

/// `k` is the first place at which `a` and `b` differ.
pub open spec fn first_difference(a: Seq<u8>, b: Seq<u8>, k: int) -> bool {
    &&& 0 <= k < a.len()
    &&& k < b.len()
    &&& a[k] != b[k]
    &&& forall|j: int| 0 <= j < k ==> a[j] == b[j]
}

/// `a` comes before `b` in lexicographic order: at the first place where the
/// two differ, `a` holds the smaller byte.
pub open spec fn lex_less(a: Seq<u8>, b: Seq<u8>) -> bool {
    exists|k: int| #[trigger] first_difference(a, b, k) && a[k] < b[k]
}

/// Of two byte strings of one length either one comes before the other or
/// they are the same, and no two of these hold at once.
pub proof fn lemma_lex_trichotomy(a: Seq<u8>, b: Seq<u8>)
    requires
        a.len() == b.len(),
    ensures
        lex_less(a, b) || a == b || lex_less(b, a),
        !(lex_less(a, b) && a == b),
        !(lex_less(b, a) && a == b),
        !(lex_less(a, b) && lex_less(b, a)),
{
    if a != b {
        assert(!(a =~= b));
        let k = choose|k: int| 0 <= k < a.len() && a[k] != b[k];
        lemma_first_difference_exists(a, b, k);
    }
}

/// Two byte strings that differ somewhere differ at a first place.
proof fn lemma_first_difference_exists(a: Seq<u8>, b: Seq<u8>, k: int)
    requires
        a.len() == b.len(),
        0 <= k < a.len(),
        a[k] != b[k],
    ensures
        exists|i: int| #[trigger] first_difference(a, b, i) && first_difference(b, a, i),
    decreases k,
{
    if exists|j: int| 0 <= j < k && a[j] != b[j] {
        let j = choose|j: int| 0 <= j < k && a[j] != b[j];
        lemma_first_difference_exists(a, b, j);
    } else {
        assert(first_difference(a, b, k) && first_difference(b, a, k));
    }
}

/// The first index at which two byte strings of one length differ, or `None`
/// where they hold the same bytes.
pub(crate) fn first_differing_byte(a: &[u8], b: &[u8]) -> (r: Option<usize>)
    requires
        a@.len() == b@.len(),
    ensures
        match r {
            Some(k) => first_difference(a@, b@, k as int) && first_difference(b@, a@, k as int),
            None => a@ == b@,
        },
{
    for i in 0..a.len()
        invariant
            a@.len() == b@.len(),
            forall|j: int| 0 <= j < i ==> a@[j] == b@[j],
    {
        if a[i] != b[i] {
            return Some(i);
        }
    }
    None
}

impl PartialEq for FileId {
    fn eq(&self, other: &FileId) -> (r: bool) {
        first_differing_byte(self.0.as_slice(), other.0.as_slice()).is_none()
    }
}

impl vstd::std_specs::cmp::PartialEqSpecImpl for FileId {
    open spec fn obeys_eq_spec() -> bool {
        true
    }

    open spec fn eq_spec(&self, other: &FileId) -> bool {
        self.0@ == other.0@
    }
}

impl PartialOrd for FileId {
    fn partial_cmp(&self, other: &FileId) -> (r: Option<Ordering>) {
        match first_differing_byte(self.0.as_slice(), other.0.as_slice()) {
            None => Some(Ordering::Equal),
            Some(k) => {
                if self.0[k] < other.0[k] {
                    Some(Ordering::Less)
                } else {
                    Some(Ordering::Greater)
                }
            },
        }
    }
}

impl vstd::std_specs::cmp::PartialOrdSpecImpl for FileId {
    open spec fn obeys_partial_cmp_spec() -> bool {
        true
    }

    open spec fn partial_cmp_spec(&self, other: &FileId) -> Option<Ordering> {
        if self.0@ == other.0@ {
            Some(Ordering::Equal)
        } else if lex_less(self.0@, other.0@) {
            Some(Ordering::Less)
        } else {
            Some(Ordering::Greater)
        }
    }
}

impl FileId {
    /// Writes the identifier as 40 characters of lowercase base 16, two for
    /// each byte, first byte first.
    pub fn to_base16(&self) -> (s: String)
        ensures
            s@ == hex_text(self.0@),
            s@.len() == 40,
    {
        let mut digits = [0u8; 40];
        for i in 0..20usize
            invariant
                forall|j: int| 0 <= j < 2 * i ==> #[trigger] digits@[j] < 16,
                forall|j: int|
                    0 <= j < i ==> digits@[2 * j] == self.0@[j] / 16 && digits@[2 * j + 1]
                        == self.0@[j] % 16,
        {
            let b = self.0[i];
            digits[2 * i] = b / 16;
            digits[2 * i + 1] = b % 16;
        }
        base16_string(digits.as_slice())
    }
}

} // verus!
