//! Decimal numbers on the command line.

use vstd::prelude::*;

verus! {

/// `c` is one of `0`..`9`.
pub open spec fn decimal_digit(c: char) -> bool {
    '0' <= c <= '9'
}

/// The number that a run of decimal digits stands for, most significant first.
pub open spec fn digits_value(digits: Seq<char>) -> nat
    decreases digits.len(),
{
    if digits.len() == 0 {
        0
    } else {
        (digits_value(digits.drop_last()) * 10 + (digits.last() as u32 - '0' as u32)) as nat
    }
}

/// `text` without the `+` that may stand in front.
pub open spec fn unsigned_part(text: Seq<char>) -> Seq<char> {
    if text.len() > 0 && text[0] == '+' {
        text.drop_first()
    } else {
        text
    }
}

/// Every character is a decimal digit.
pub open spec fn all_decimal_digits(digits: Seq<char>) -> bool {
    forall|i: int| 0 <= i < digits.len() ==> decimal_digit(#[trigger] digits[i])
}

/// The number that `text` stands for: an optional `+`, then one or more
/// decimal digits and nothing else. `None` for any other text.
pub open spec fn decimal_value(text: Seq<char>) -> Option<nat> {
    let digits = unsigned_part(text);
    if digits.len() > 0 && all_decimal_digits(digits) {
        Some(digits_value(digits))
    } else {
        None
    }
}

/// `decimal_value`, as far as it does not exceed `max`.
pub open spec fn decimal_within(text: Seq<char>, max: nat) -> Option<nat> {
    match decimal_value(text) {
        Some(value) if value <= max => Some(value),
        _ => None,
    }
}

/// `str::parse::<usize>`. Trusted: it succeeds on an optional `+` followed
/// by decimal digits whose value fits a `usize`, with that value, and on
/// nothing else.
#[verifier::external_body]
pub(crate) fn parse_usize(text: &str) -> (r: Result<usize, std::num::ParseIntError>)
    ensures
        match r {
            Ok(value) => decimal_within(text@, usize::MAX as nat) == Some(value as nat),
            Err(_) => decimal_within(text@, usize::MAX as nat) is None,
        },
{
    text.parse::<usize>()
}

/// `str::parse::<u64>`. Trusted: it succeeds on an optional `+` followed by
/// decimal digits whose value fits a `u64`, with that value, and on nothing
/// else.
#[verifier::external_body]
pub(crate) fn parse_u64(text: &str) -> (r: Result<u64, std::num::ParseIntError>)
    ensures
        match r {
            Ok(value) => decimal_within(text@, u64::MAX as nat) == Some(value as nat),
            Err(_) => decimal_within(text@, u64::MAX as nat) is None,
        },
{
    text.parse::<u64>()
}

} // verus!
