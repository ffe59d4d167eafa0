//! Signed hexadecimal offsets: `-0x8`, `+0x8`, `0x8`.
use vstd::prelude::*;
use crate::address::{Address, AddressView};
use crate::error::{Grammar, ParseError};
use crate::hexadecimal::{prefixed_hex_8bits_at, spec_prefixed_hex_8bits};
use crate::lexical::{char_at, char_is, chars_of, rest_of};
use super::fits_i8;

verus! {

/// `0x` and one or two hexadecimal digits whose value fits in `i8`.
pub open spec fn spec_soft_positive(s: Seq<char>, p: int) -> Option<(i8, int)> {
    match spec_prefixed_hex_8bits(s, p) {
        Some((m, q)) => if fits_i8(m as int) {
            Some((m as i8, q))
        } else {
            None
        },
        None => None,
    }
}

/// `+`, then as `spec_soft_positive`.
pub open spec fn spec_hard_positive(s: Seq<char>, p: int) -> Option<(i8, int)> {
    if char_is(s, p, '+') {
        spec_soft_positive(s, p + 1)
    } else {
        None
    }
}

/// `-`, `0x` and one or two hexadecimal digits whose value, the magnitude,
/// fits in `i8`.
pub open spec fn spec_negative(s: Seq<char>, p: int) -> Option<(i8, int)> {
    if char_is(s, p, '-') {
        match spec_prefixed_hex_8bits(s, p + 1) {
            Some((m, q)) => if fits_i8(m as int) {
                Some(((-(m as int)) as i8, q))
            } else {
                None
            },
            None => None,
        }
    } else {
        None
    }
}

/// A negative, else an explicitly positive, else a plain hexadecimal offset.
pub open spec fn spec_relative_hex(s: Seq<char>, p: int) -> Option<(i8, int)> {
    match spec_negative(s, p) {
        Some(r) => Some(r),
        None => match spec_hard_positive(s, p) {
            Some(r) => Some(r),
            None => spec_soft_positive(s, p),
        },
    }
}

pub fn soft_positive_at(s: &Vec<char>, p: usize) -> (r: Option<(i8, usize)>)
    requires
        p <= s.len(),
    ensures
        match r {
            None => spec_soft_positive(s@, p as int) is None,
            Some((v, q)) => spec_soft_positive(s@, p as int) == Some((v, q as int)) && q <= s.len(),
        },
{
    match prefixed_hex_8bits_at(s, p) {
        Some((m, q)) => if m <= 127 {
            Some((m as i8, q))
        } else {
            None
        },
        None => None,
    }
}

pub fn hard_positive_at(s: &Vec<char>, p: usize) -> (r: Option<(i8, usize)>)
    requires
        p <= s.len(),
    ensures
        match r {
            None => spec_hard_positive(s@, p as int) is None,
            Some((v, q)) => spec_hard_positive(s@, p as int) == Some((v, q as int)) && q <= s.len(),
        },
{
    if char_at(s, p, '+') {
        soft_positive_at(s, p + 1)
    } else {
        None
    }
}

pub fn negative_at(s: &Vec<char>, p: usize) -> (r: Option<(i8, usize)>)
    requires
        p <= s.len(),
    ensures
        match r {
            None => spec_negative(s@, p as int) is None,
            Some((v, q)) => spec_negative(s@, p as int) == Some((v, q as int)) && q <= s.len(),
        },
{
    if !char_at(s, p, '-') {
        return None;
    }
    match prefixed_hex_8bits_at(s, p + 1) {
        Some((m, q)) => if m <= 127 {
            Some(((0 - m as i32) as i8, q))
        } else {
            None
        },
        None => None,
    }
}

pub fn relative_hex_at(s: &Vec<char>, p: usize) -> (r: Option<(i8, usize)>)
    requires
        p <= s.len(),
    ensures
        match r {
            None => spec_relative_hex(s@, p as int) is None,
            Some((v, q)) => spec_relative_hex(s@, p as int) == Some((v, q as int)) && q <= s.len(),
        },
{
    match negative_at(s, p) {
        Some(r) => Some(r),
        None => match hard_positive_at(s, p) {
            Some(r) => Some(r),
            None => soft_positive_at(s, p),
        },
    }
}

/// Parses `0x` and a hexadecimal value that fits in `i8`.
pub fn parse_soft_positive(input: &str) -> (r: Result<(&str, i8), ParseError>)
    ensures
        match spec_soft_positive(input@, 0) {
            Some((v, q)) => r matches Ok((rest, w)) && w == v && rest@ == input@.subrange(
                q,
                input@.len() as int,
            ),
            None => r matches Err(e) && e.grammar == Grammar::Relative && e.text@ == input@,
        },
{
    let s = chars_of(input);
    match soft_positive_at(&s, 0) {
        Some((v, q)) => Ok((rest_of(input, q), v)),
        None => Err(ParseError::new(Grammar::Relative, input)),
    }
}

/// Parses `+0x` and a hexadecimal value that fits in `i8`.
pub fn parse_hard_positive(input: &str) -> (r: Result<(&str, i8), ParseError>)
    ensures
        match spec_hard_positive(input@, 0) {
            Some((v, q)) => r matches Ok((rest, w)) && w == v && rest@ == input@.subrange(
                q,
                input@.len() as int,
            ),
            None => r matches Err(e) && e.grammar == Grammar::Relative && e.text@ == input@,
        },
{
    let s = chars_of(input);
    match hard_positive_at(&s, 0) {
        Some((v, q)) => Ok((rest_of(input, q), v)),
        None => Err(ParseError::new(Grammar::Relative, input)),
    }
}

/// Parses `-0x` and a hexadecimal value that fits in `i8`, negated.
pub fn parse_negative(input: &str) -> (r: Result<(&str, i8), ParseError>)
    ensures
        match spec_negative(input@, 0) {
            Some((v, q)) => r matches Ok((rest, w)) && w == v && rest@ == input@.subrange(
                q,
                input@.len() as int,
            ),
            None => r matches Err(e) && e.grammar == Grammar::Relative && e.text@ == input@,
        },
{
    let s = chars_of(input);
    match negative_at(&s, 0) {
        Some((v, q)) => Ok((rest_of(input, q), v)),
        None => Err(ParseError::new(Grammar::Relative, input)),
    }
}

/// Parses a signed hexadecimal offset as a relative address.
pub fn parse(input: &str) -> (r: Result<(&str, Address), ParseError>)
    ensures
        match spec_relative_hex(input@, 0) {
            Some((v, q)) => r matches Ok((rest, a)) && a@ == AddressView::Relative(v) && rest@
                == input@.subrange(q, input@.len() as int),
            None => r matches Err(e) && e.grammar == Grammar::Relative && e.text@ == input@,
        },
{
    let s = chars_of(input);
    match relative_hex_at(&s, 0) {
        Some((v, q)) => Ok((rest_of(input, q), Address::Relative(v))),
        None => Err(ParseError::new(Grammar::Relative, input)),
    }
}

} // verus!
