//! Text as the program reads it: compared, cleaned of what surrounds it, and read as a number.

use vstd::prelude::*;
use vstd::utf8::encode_utf8_decode_utf8;

verus! {

/// Whether two slices hold the same bytes.
pub fn same_bytes(a: &[u8], b: &[u8]) -> (r: bool)
    ensures
        r == (a@ == b@),
{
    if a.len() != b.len() {
        return false;
    }
    let mut i: usize = 0;
    while i < a.len()
        invariant
            i <= a@.len(),
            a@.len() == b@.len(),
            forall|j: int| 0 <= j < i ==> a@[j] == b@[j],
        decreases a.len() - i,
    {
        if a[i] != b[i] {
            return false;
        }
        i += 1;
    }
    assert(a@ =~= b@);
    true
}

/// Whether two strings hold the same characters.
pub fn same_text(a: &str, b: &str) -> (r: bool)
    ensures
        r == (a@ == b@),
{
    proof {
        encode_utf8_decode_utf8(a@);
        encode_utf8_decode_utf8(b@);
    }
    same_bytes(a.as_bytes(), b.as_bytes())
}

/// What `str::to_lowercase` of the standard library returns for `text`:
/// the text with every character replaced by its Unicode lowercase form.
pub uninterp spec fn lowercase_of(text: Seq<char>) -> Seq<char>;

/// What `str::trim` of the standard library returns for `text`: the text without
/// the white space, as Unicode defines it, at its start and at its end.
pub uninterp spec fn trimmed_of(text: Seq<char>) -> Seq<char>;

/// `str::to_lowercase`: the lowercase form of `text`, which depends on `text` alone.
#[verifier::external_body]
pub(crate) fn to_lowercase(text: &str) -> (lower: String)
    ensures
        lower@ == lowercase_of(text@),
{
    text.to_lowercase()
}

/// `str::trim`: `text` without the white space around it, which depends on `text` alone.
#[verifier::external_body]
pub(crate) fn trim(text: &str) -> (trimmed: &str)
    ensures
        trimmed@ == trimmed_of(text@),
{
    text.trim()
}

/// The byte `+`.
pub const PLUS: u8 = 43;

/// The byte `0`.
pub const ZERO: u8 = 48;

/// The byte `9`.
pub const NINE: u8 = 57;

/// Every byte is a decimal digit.
pub open spec fn all_digits(digits: Seq<u8>) -> bool {
    forall|i: int| 0 <= i < digits.len() ==> ZERO <= #[trigger] digits[i] <= NINE
}

/// The number that decimal digits spell.
pub open spec fn digits_value(digits: Seq<u8>) -> nat
    decreases digits.len(),
{
    if digits.len() == 0 {
        0
    } else {
        digits_value(digits.drop_last()) * 10 + (digits.last() - ZERO) as nat
    }
}

/// The bytes without the sign `+` that may lead them.
pub open spec fn unsigned_digits(bytes: Seq<u8>) -> Seq<u8> {
    if bytes.len() > 0 && bytes[0] == PLUS {
        bytes.skip(1)
    } else {
        bytes
    }
}

/// The number that `bytes` spell: one digit or more, after `+` or after nothing, that
/// spell a number within `usize`. Anything else spells no number.
pub open spec fn parsed_number(bytes: Seq<u8>) -> Option<usize> {
    let digits = unsigned_digits(bytes);
    if digits.len() > 0 && all_digits(digits) && digits_value(digits) <= usize::MAX {
        Some(digits_value(digits) as usize)
    } else {
        None
    }
}

/// More digits spell no smaller number.
pub proof fn lemma_digits_value_grows(digits: Seq<u8>, k: int)
    requires
        all_digits(digits),
        0 <= k <= digits.len(),
    ensures
        digits_value(digits.take(k)) <= digits_value(digits),
    decreases digits.len() - k,
{
    if k == digits.len() {
        assert(digits.take(k) =~= digits);
    } else {
        lemma_digits_value_grows(digits, k + 1);
        assert(digits.take(k + 1).drop_last() =~= digits.take(k));
    }
}

/// Reads a number as `str::parse::<usize>` does.
pub fn parse_number(bytes: &[u8]) -> (number: Option<usize>)
    ensures
        number == parsed_number(bytes@),
{
    let start: usize = if bytes.len() > 0 && bytes[0] == PLUS {
        1
    } else {
        0
    };
    let ghost digits = unsigned_digits(bytes@);
    if start == bytes.len() {
        return None;
    }
    let mut value: usize = 0;
    let mut i: usize = start;
    while i < bytes.len()
        invariant
            start <= i <= bytes@.len(),
            digits == bytes@.skip(start as int),
            digits == unsigned_digits(bytes@),
            all_digits(digits.take(i - start)),
            value == digits_value(digits.take(i - start)),
        decreases bytes.len() - i,
    {
        let byte = bytes[i];
        let ghost read = digits.take(i - start);
        let ghost more = digits.take(i - start + 1);
        proof {
            assert(more.drop_last() =~= read);
            assert(more.last() == byte);
        }
        if byte < ZERO || byte > NINE {
            return None;
        }
        assert(all_digits(more)) by {
            assert forall|k: int| 0 <= k < more.len() implies ZERO <= #[trigger] more[k] <= NINE by {
            }
        }
        let next = match value.checked_mul(10) {
            Some(tens) => tens.checked_add((byte - ZERO) as usize),
            None => None,
        };
        match next {
            Some(grown) => {
                value = grown;
            },
            None => {
                proof {
                    if all_digits(digits) {
                        lemma_digits_value_grows(digits, i - start + 1);
                    }
                }
                return None;
            },
        }
        i += 1;
    }
    assert(digits.take(i - start) =~= digits);
    Some(value)
}

} // verus!
