//! Relative addresses: a signed 8-bit offset, in hexadecimal or decimal, or a
//! label name.
use vstd::prelude::*;
use crate::address::{Address, AddressView};
use crate::error::{Grammar, ParseError};
use crate::hexadecimal::{has_hex_prefix, hex_prefix_at};
use crate::lexical::{
    alphabetic, char_at, char_is, chars_of, class_end, in_class_exec, is_digit, rest_of, scan_class,
    string_of, CharClass,
};

pub mod decimal;
pub mod hexadecimal;

verus! {

/// Whether `v` fits in a signed byte.
pub open spec fn fits_i8(v: int) -> bool {
    -128 <= v <= 127
}

/// A letter, then a run of letters and numbers, as a relative label.
pub open spec fn spec_relative_symbolic(s: Seq<char>, p: int) -> Option<(AddressView, int)> {
    if 0 <= p < s.len() && alphabetic(s[p]) {
        let q = class_end(s, p + 1, CharClass::Alphanumeric);
        Some((AddressView::RelativeSymbolic(s.subrange(p, q)), q))
    } else {
        None
    }
}

/// Where the text of an offset's value starts: after its sign, if any.
pub open spec fn after_sign(s: Seq<char>, p: int) -> int {
    if char_is(s, p, '+') || char_is(s, p, '-') {
        p + 1
    } else {
        p
    }
}

/// A relative address. The text commits to its form by how it starts: after
/// an optional sign, `0x` begins a hexadecimal offset; else a sign or a digit
/// begins a decimal offset; else a letter begins a label. An offset whose
/// magnitude does not fit in a signed byte is no relative address.
pub open spec fn spec_relative(s: Seq<char>, p: int) -> Option<(AddressView, int)> {
    let b = after_sign(s, p);
    if has_hex_prefix(s, b) {
        match hexadecimal::spec_relative_hex(s, p) {
            Some((v, q)) => Some((AddressView::Relative(v), q)),
            None => None,
        }
    } else if b > p || (0 <= p < s.len() && is_digit(s[p])) {
        match decimal::spec_relative_dec(s, p) {
            Some((v, q)) => Some((AddressView::Relative(v), q)),
            None => None,
        }
    } else {
        spec_relative_symbolic(s, p)
    }
}

pub fn relative_at(s: &Vec<char>, p: usize) -> (r: Option<(Address, usize)>)
    requires
        p <= s.len(),
    ensures
        match r {
            None => spec_relative(s@, p as int) is None,
            Some((a, q)) => spec_relative(s@, p as int) == Some((a@, q as int)) && q <= s.len(),
        },
{
    let b = if char_at(s, p, '+') || char_at(s, p, '-') {
        p + 1
    } else {
        p
    };
    if hex_prefix_at(s, b) {
        match hexadecimal::relative_hex_at(s, p) {
            Some((v, q)) => Some((Address::Relative(v), q)),
            None => None,
        }
    } else if b > p || (p < s.len() && in_class_exec(CharClass::Digit, s[p])) {
        match decimal::relative_dec_at(s, p) {
            Some((v, q)) => Some((Address::Relative(v), q)),
            None => None,
        }
    } else if p < s.len() && in_class_exec(CharClass::Alphabetic, s[p]) {
        let q = scan_class(s, p + 1, CharClass::Alphanumeric);
        Some((Address::RelativeSymbolic(string_of(s, p, q)), q))
    } else {
        None
    }
}

/// Parses a relative address: `-0x8`, `+0x8`, `0x8`, `-8`, `+8`, `8`, or a
/// label name.
pub fn parse_relative(input: &str) -> (r: Result<(&str, Address), ParseError>)
    ensures
        match spec_relative(input@, 0) {
            Some((a, q)) => r matches Ok((rest, b)) && b@ == a && rest@ == input@.subrange(
                q,
                input@.len() as int,
            ),
            None => r matches Err(e) && e.grammar == Grammar::Relative && e.text@ == input@,
        },
{
    let s = chars_of(input);
    match relative_at(&s, 0) {
        Some((a, q)) => Ok((rest_of(input, q), a)),
        None => Err(ParseError::new(Grammar::Relative, input)),
    }
}

} // verus!
