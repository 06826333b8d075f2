//! Decimal integers as std's `str::parse::<i64>` reads them.
use vstd::prelude::*;

verus! {

/// An ASCII decimal digit.
pub open spec fn is_digit(c: char) -> bool {
    '0' <= c && c <= '9'
}

/// A non-empty run of ASCII decimal digits.
pub open spec fn all_digits(s: Seq<char>) -> bool {
    s.len() > 0 && forall|i: int| 0 <= i < s.len() ==> is_digit(#[trigger] s[i])
}

/// The value of a run of decimal digits, most significant first.
pub open spec fn digits_value(s: Seq<char>) -> int
    decreases s.len(),
{
    if s.len() == 0 {
        0
    } else {
        digits_value(s.drop_last()) * 10 + (s.last() as int - '0' as int)
    }
}

/// The integer that `s` spells: an optional `+` or `-` followed by digits.
pub open spec fn decimal_value(s: Seq<char>) -> Option<int> {
    if s.len() > 0 && (s[0] == '+' || s[0] == '-') {
        let d = s.subrange(1, s.len() as int);
        if all_digits(d) {
            Some(if s[0] == '-' { -digits_value(d) } else { digits_value(d) })
        } else {
            None
        }
    } else if all_digits(s) {
        Some(digits_value(s))
    } else {
        None
    }
}

/// What `s` parses to as an `i64`: its decimal value when that fits.
pub open spec fn i64_of(s: Seq<char>) -> Option<i64> {
    match decimal_value(s) {
        Some(v) => if i64::MIN <= v && v <= i64::MAX {
            Some(v as i64)
        } else {
            None
        },
        None => None,
    }
}

/// Relies on `<i64 as FromStr>::from_str` (through `str::parse`): an optional
/// `+` or `-` sign followed by one or more ASCII digits, with no whitespace, is
/// read in base 10; anything else, or a value out of range, is an error.
#[verifier::external_body]
pub(crate) fn parse_i64(s: &str) -> (r: Option<i64>)
    ensures
        r == i64_of(s@),
{
    s.parse::<i64>().ok()
}

} // verus!
