//! Hexadecimal literals of 8 and 16 bits, plain or signed.
use vstd::prelude::*;
use crate::error::{Grammar, ParseError};
use crate::lexical::{
    char_at, char_is, chars_of, hex_digits_at, hex_value, in_class_exec, is_hex, lemma_pow16_monotonic,
    pow16, rest_of, run_end, CharClass,
};

verus! {

/// One to `max` hexadecimal digits at `p`, as many as stand there: their
/// value and where they end.
pub open spec fn spec_hex(s: Seq<char>, p: int, max: nat) -> Option<(nat, int)> {
    let q = run_end(s, p, max, CharClass::Hex);
    if q > p {
        Some((hex_value(s.subrange(p, q)), q))
    } else {
        None
    }
}

/// Whether `0x` stands at `p`.
pub open spec fn has_hex_prefix(s: Seq<char>, p: int) -> bool {
    char_is(s, p, '0') && char_is(s, p + 1, 'x')
}

/// One or two hexadecimal digits.
pub open spec fn spec_raw_8bits(s: Seq<char>, p: int) -> Option<(u16, int)> {
    match spec_hex(s, p, 2) {
        Some((v, q)) => Some((v as u16, q)),
        None => None,
    }
}

/// `0x` and one or two hexadecimal digits.
pub open spec fn spec_prefixed_hex_8bits(s: Seq<char>, p: int) -> Option<(u16, int)> {
    if has_hex_prefix(s, p) {
        spec_raw_8bits(s, p + 2)
    } else {
        None
    }
}

/// One to four hexadecimal digits.
pub open spec fn spec_raw_16bits(s: Seq<char>, p: int) -> Option<(u16, int)> {
    match spec_hex(s, p, 4) {
        Some((v, q)) => Some((v as u16, q)),
        None => None,
    }
}

/// `0x` and one to four hexadecimal digits.
pub open spec fn spec_soft_positive_16bits(s: Seq<char>, p: int) -> Option<(u16, int)> {
    if has_hex_prefix(s, p) {
        spec_raw_16bits(s, p + 2)
    } else {
        None
    }
}

/// The two's complement negation of a 16-bit pattern.
pub open spec fn negate16(v: u16) -> u16 {
    ((0x10000 - v as int) % 0x10000) as u16
}

/// A signed 16-bit literal, as its bit pattern: `-0x..` (negated), `+0x..`
/// or `0x..`.
pub open spec fn spec_i16(s: Seq<char>, p: int) -> Option<(u16, int)> {
    if char_is(s, p, '-') {
        match spec_soft_positive_16bits(s, p + 1) {
            Some((v, q)) => Some((negate16(v), q)),
            None => None,
        }
    } else if char_is(s, p, '+') {
        spec_soft_positive_16bits(s, p + 1)
    } else {
        spec_soft_positive_16bits(s, p)
    }
}

/// The signed value of a 16-bit pattern.
pub open spec fn as_signed16(v: u16) -> int {
    if v < 0x8000 {
        v as int
    } else {
        v - 0x10000
    }
}

/// Whether `c` is a hexadecimal digit.
pub fn is_hex_digit(c: char) -> (r: bool)
    ensures
        r == is_hex(c),
{
    in_class_exec(CharClass::Hex, c)
}

pub fn hex_at(s: &Vec<char>, p: usize, max: usize) -> (r: Option<(u32, usize)>)
    requires
        p <= s.len(),
        1 <= max <= 8,
    ensures
        match r {
            None => spec_hex(s@, p as int, max as nat) is None,
            Some((v, q)) => {
                &&& spec_hex(s@, p as int, max as nat) == Some((v as nat, q as int))
                &&& q <= s.len()
                &&& (v as nat) < pow16((q - p) as nat)
                &&& q - p <= max
            },
        },
{
    hex_digits_at(s, p, max)
}

pub fn hex_prefix_at(s: &Vec<char>, p: usize) -> (r: bool)
    ensures
        r == has_hex_prefix(s@, p as int),
{
    char_at(s, p, '0') && p < s.len() && char_at(s, p + 1, 'x')
}

pub fn raw_8bits_at(s: &Vec<char>, p: usize) -> (r: Option<(u16, usize)>)
    requires
        p <= s.len(),
    ensures
        match r {
            None => spec_raw_8bits(s@, p as int) is None,
            Some((v, q)) => spec_raw_8bits(s@, p as int) == Some((v, q as int)) && q <= s.len()
                && v <= 0xff,
        },
{
    match hex_at(s, p, 2) {
        None => None,
        Some((v, q)) => {
            proof {
                lemma_pow16_monotonic((q - p) as nat, 2);
                reveal_with_fuel(pow16, 3);
            }
            Some((v as u16, q))
        },
    }
}

pub fn prefixed_hex_8bits_at(s: &Vec<char>, p: usize) -> (r: Option<(u16, usize)>)
    requires
        p <= s.len(),
    ensures
        match r {
            None => spec_prefixed_hex_8bits(s@, p as int) is None,
            Some((v, q)) => spec_prefixed_hex_8bits(s@, p as int) == Some((v, q as int)) && q
                <= s.len() && v <= 0xff,
        },
{
    if hex_prefix_at(s, p) {
        raw_8bits_at(s, p + 2)
    } else {
        None
    }
}

pub fn raw_16bits_at(s: &Vec<char>, p: usize) -> (r: Option<(u16, usize)>)
    requires
        p <= s.len(),
    ensures
        match r {
            None => spec_raw_16bits(s@, p as int) is None,
            Some((v, q)) => spec_raw_16bits(s@, p as int) == Some((v, q as int)) && q <= s.len(),
        },
{
    match hex_at(s, p, 4) {
        None => None,
        Some((v, q)) => {
            proof {
                lemma_pow16_monotonic((q - p) as nat, 4);
                reveal_with_fuel(pow16, 5);
            }
            Some((v as u16, q))
        },
    }
}

pub fn soft_positive_16bits_at(s: &Vec<char>, p: usize) -> (r: Option<(u16, usize)>)
    requires
        p <= s.len(),
    ensures
        match r {
            None => spec_soft_positive_16bits(s@, p as int) is None,
            Some((v, q)) => spec_soft_positive_16bits(s@, p as int) == Some((v, q as int)) && q
                <= s.len(),
        },
{
    if hex_prefix_at(s, p) {
        raw_16bits_at(s, p + 2)
    } else {
        None
    }
}

pub fn i16_at(s: &Vec<char>, p: usize) -> (r: Option<(u16, usize)>)
    requires
        p <= s.len(),
    ensures
        match r {
            None => spec_i16(s@, p as int) is None,
            Some((v, q)) => spec_i16(s@, p as int) == Some((v, q as int)) && q <= s.len(),
        },
{
    if char_at(s, p, '-') {
        match soft_positive_16bits_at(s, p + 1) {
            Some((v, q)) => {
                let n: u16 = if v == 0 {
                    0
                } else {
                    (0x10000u32 - v as u32) as u16
                };
                Some((n, q))
            },
            None => None,
        }
    } else if char_at(s, p, '+') {
        soft_positive_16bits_at(s, p + 1)
    } else {
        soft_positive_16bits_at(s, p)
    }
}

/// Parses one or two hexadecimal digits, unprefixed.
pub fn raw_8bits(input: &str) -> (r: Result<(&str, u16), ParseError>)
    ensures
        match spec_raw_8bits(input@, 0) {
            Some((v, q)) => r matches Ok((rest, w)) && w == v && rest@ == input@.subrange(
                q,
                input@.len() as int,
            ),
            None => r matches Err(e) && e.grammar == Grammar::Hexadecimal && e.text@ == input@,
        },
{
    let s = chars_of(input);
    match raw_8bits_at(&s, 0) {
        Some((v, q)) => Ok((rest_of(input, q), v)),
        None => Err(ParseError::new(Grammar::Hexadecimal, input)),
    }
}

/// Parses `0x` and one or two hexadecimal digits.
pub fn prefixed_hex_8bits(input: &str) -> (r: Result<(&str, u16), ParseError>)
    ensures
        match spec_prefixed_hex_8bits(input@, 0) {
            Some((v, q)) => r matches Ok((rest, w)) && w == v && rest@ == input@.subrange(
                q,
                input@.len() as int,
            ),
            None => r matches Err(e) && e.grammar == Grammar::Hexadecimal && e.text@ == input@,
        },
{
    let s = chars_of(input);
    match prefixed_hex_8bits_at(&s, 0) {
        Some((v, q)) => Ok((rest_of(input, q), v)),
        None => Err(ParseError::new(Grammar::Hexadecimal, input)),
    }
}

/// Parses one to four hexadecimal digits, unprefixed.
pub fn raw_16bits(input: &str) -> (r: Result<(&str, u16), ParseError>)
    ensures
        match spec_raw_16bits(input@, 0) {
            Some((v, q)) => r matches Ok((rest, w)) && w == v && rest@ == input@.subrange(
                q,
                input@.len() as int,
            ),
            None => r matches Err(e) && e.grammar == Grammar::Hexadecimal && e.text@ == input@,
        },
{
    let s = chars_of(input);
    match raw_16bits_at(&s, 0) {
        Some((v, q)) => Ok((rest_of(input, q), v)),
        None => Err(ParseError::new(Grammar::Hexadecimal, input)),
    }
}

/// Parses a signed 16-bit hexadecimal literal: `0x..`, `+0x..` or `-0x..`.
/// The value is the two's complement reading of the bit pattern, so
/// `0xffff` reads as -1 and `-0x1` as -1 too.
pub fn i16(input: &str) -> (r: Result<(&str, i16), ParseError>)
    ensures
        match spec_i16(input@, 0) {
            Some((v, q)) => r matches Ok((rest, w)) && w as int == as_signed16(v) && rest@
                == input@.subrange(q, input@.len() as int),
            None => r matches Err(e) && e.grammar == Grammar::Hexadecimal && e.text@ == input@,
        },
{
    let s = chars_of(input);
    match i16_at(&s, 0) {
        Some((v, q)) => {
            let w: i16 = if v < 0x8000 {
                v as i16
            } else {
                (v as i32 - 0x10000i32) as i16
            };
            Ok((rest_of(input, q), w))
        },
        None => Err(ParseError::new(Grammar::Hexadecimal, input)),
    }
}

} // verus!
