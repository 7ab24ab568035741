//! The lexical grammars of the primitive leaf types, and std's parsers for them.
use vstd::prelude::*;

verus! {

pub open spec fn is_digit(c: char) -> bool {
    '0' <= c && c <= '9'
}

/// One or more decimal digits.
pub open spec fn all_digits(s: Seq<char>) -> bool {
    s.len() > 0 && forall|i: int| 0 <= i < s.len() ==> is_digit(#[trigger] s[i])
}

/// The number that a string of decimal digits denotes.
pub open spec fn digits_value(s: Seq<char>) -> int
    decreases s.len(),
{
    if s.len() == 0 {
        0
    } else {
        10 * digits_value(s.drop_last()) + (s.last() as int - '0' as int)
    }
}

/// The value of a signed decimal literal: an optional `+` or `-` and then
/// one or more digits, nothing else.
pub open spec fn signed_literal(s: Seq<char>) -> Option<int> {
    if s.len() > 0 && (s[0] == '+' || s[0] == '-') {
        if all_digits(s.drop_first()) {
            if s[0] == '-' {
                Some(-digits_value(s.drop_first()))
            } else {
                Some(digits_value(s.drop_first()))
            }
        } else {
            None
        }
    } else if all_digits(s) {
        Some(digits_value(s))
    } else {
        None
    }
}

/// The value of an unsigned decimal literal: an optional `+` and then one or
/// more digits, nothing else.
pub open spec fn unsigned_literal(s: Seq<char>) -> Option<int> {
    if s.len() > 0 && s[0] == '+' {
        if all_digits(s.drop_first()) {
            Some(digits_value(s.drop_first()))
        } else {
            None
        }
    } else if all_digits(s) {
        Some(digits_value(s))
    } else {
        None
    }
}

/// A signed literal whose value lies in `lo ..= hi`.
pub open spec fn signed_within(s: Seq<char>, lo: int, hi: int) -> bool {
    signed_literal(s) is Some && lo <= signed_literal(s)->0 <= hi
}

/// An unsigned literal whose value is at most `hi`.
pub open spec fn unsigned_within(s: Seq<char>, hi: int) -> bool {
    unsigned_literal(s) is Some && unsigned_literal(s)->0 <= hi
}

/// The boolean literals: exactly `true` or `false`.
pub open spec fn bool_literal(s: Seq<char>) -> Option<bool> {
    if s == seq!['t', 'r', 'u', 'e'] {
        Some(true)
    } else if s == seq!['f', 'a', 'l', 's', 'e'] {
        Some(false)
    } else {
        None
    }
}

/// Relies on `<bool as FromStr>::from_str`, which accepts exactly `true` and
/// `false`.
#[verifier::external_body]
pub(crate) fn parse_bool(s: &str) -> (r: Option<bool>)
    ensures
        r == bool_literal(s@),
{
    s.parse::<bool>().ok()
}

/// Relies on `<i64 as FromStr>::from_str`: an optional sign followed by
/// decimal digits, accepted when the value fits in an `i64`.
#[verifier::external_body]
pub(crate) fn parse_i64(s: &str) -> (r: Option<i64>)
    ensures
        r is Some <==> signed_within(s@, i64::MIN as int, i64::MAX as int),
        r is Some ==> r->0 as int == signed_literal(s@)->0,
{
    s.parse::<i64>().ok()
}

/// Relies on `<u64 as FromStr>::from_str`: an optional `+` followed by
/// decimal digits, accepted when the value fits in a `u64`.
#[verifier::external_body]
pub(crate) fn parse_u64(s: &str) -> (r: Option<u64>)
    ensures
        r is Some <==> unsigned_within(s@, u64::MAX as int),
        r is Some ==> r->0 as int == unsigned_literal(s@)->0,
{
    s.parse::<u64>().ok()
}

} // verus!
