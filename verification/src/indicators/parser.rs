//! Reading numbers from text.

use crate::indicators::error::IndicatorError;
use crate::text::{
    all_digits, digit_run, digits_value, lemma_digit_run, lemma_digit_run_digits, read_digits,
};
use vstd::prelude::*;
use vstd::string::StrSliceExecFns;
use vstd::string::StringExecFns;

verus! {

/// The number that a text writes as an unsigned 32-bit integer: an optional
/// plus sign followed by one or more digits, whose value fits.
pub open spec fn u32_text_value(s: Seq<char>) -> Option<u32> {
    let body = if s.len() > 0 && s[0] == '+' {
        s.skip(1)
    } else {
        s
    };
    if body.len() > 0 && all_digits(body) && digits_value(body) <= u32::MAX {
        Some(digits_value(body) as u32)
    } else {
        None
    }
}

/// Whether `r` is what reading `s` as an unsigned 32-bit integer gives: the
/// number, or the error that carries the text.
pub open spec fn u32_parse_gives(r: Result<u32, IndicatorError>, s: Seq<char>) -> bool {
    match u32_text_value(s) {
        Some(v) => r == Ok::<u32, IndicatorError>(v),
        None => match r {
            Err(IndicatorError::InvalidNumericFormat(text)) => text@ == s,
            _ => false,
        },
    }
}

/// Reads an unsigned 32-bit integer from text.
pub fn parse_u32(value: &str) -> (r: Result<u32, IndicatorError>)
    ensures
        u32_parse_gives(r, value@),
{
    let len: usize = value.unicode_len();
    let mut start: usize = 0;
    if len > 0 && value.get_char(0) == '+' {
        start = 1;
    }
    let ghost body = value@.skip(start as int);
    assert(value@.skip(0) =~= value@);
    let (end, number) = read_digits(value, start, 0xffff_ffffu64);
    proof {
        lemma_digit_run_digits(body);
        if end == len {
            assert(value@.subrange(start as int, end as int) =~= body);
            assert(all_digits(body));
        } else {
            assert(!all_digits(body));
        }
    }
    if end == start || end < len {
        return Err(IndicatorError::InvalidNumericFormat(String::from_str(value)));
    }
    match number {
        Some(n) => Ok(n as u32),
        None => Err(IndicatorError::InvalidNumericFormat(String::from_str(value))),
    }
}

/// Reads an unsigned 32-bit integer from the text that a value displays as.
pub fn parse_u32_from_any(value: &dyn std::fmt::Display) -> (r: Result<u32, IndicatorError>)
    ensures
        exists|s: String|
            vstd::string::to_string_from_display_ensures(value, s) && u32_parse_gives(r, s@),
{
    let s = value.to_string();
    let r = parse_u32(s.as_str());
    assert(vstd::string::to_string_from_display_ensures(value, s) && u32_parse_gives(r, s@));
    r
}

} // verus!
