//! Register pointers: `*R3` and, incremented after use, `*R3+`.
use vstd::prelude::*;
use crate::error::{Grammar, ParseError};
use crate::lexical::{char_at, char_is, chars_of, rest_of};
use crate::operand::{Operand, OperandView};
use crate::register::{register_at, spec_register};

verus! {

/// `*`, a register, `+`.
pub open spec fn spec_incremented_pointer(s: Seq<char>, p: int) -> Option<(OperandView, int)> {
    if char_is(s, p, '*') {
        match spec_register(s, p + 1) {
            Some((r, q)) => if char_is(s, q, '+') {
                Some((OperandView::AddressIncrement(r), q + 1))
            } else {
                None
            },
            None => None,
        }
    } else {
        None
    }
}

/// `*` and a register.
pub open spec fn spec_pointer(s: Seq<char>, p: int) -> Option<(OperandView, int)> {
    if char_is(s, p, '*') {
        match spec_register(s, p + 1) {
            Some((r, q)) => Some((OperandView::Address(r), q)),
            None => None,
        }
    } else {
        None
    }
}

pub fn incremented_pointer_at(s: &Vec<char>, p: usize) -> (r: Option<(Operand, usize)>)
    requires
        p <= s.len(),
    ensures
        match r {
            None => spec_incremented_pointer(s@, p as int) is None,
            Some((o, q)) => spec_incremented_pointer(s@, p as int) == Some((o@, q as int)) && q
                <= s.len(),
        },
{
    if !char_at(s, p, '*') {
        return None;
    }
    match register_at(s, p + 1) {
        Some((r, q)) => if char_at(s, q, '+') {
            Some((Operand::AddressIncrement(r), q + 1))
        } else {
            None
        },
        None => None,
    }
}

pub fn pointer_at(s: &Vec<char>, p: usize) -> (r: Option<(Operand, usize)>)
    requires
        p <= s.len(),
    ensures
        match r {
            None => spec_pointer(s@, p as int) is None,
            Some((o, q)) => spec_pointer(s@, p as int) == Some((o@, q as int)) && q <= s.len(),
        },
{
    if !char_at(s, p, '*') {
        return None;
    }
    match register_at(s, p + 1) {
        Some((r, q)) => Some((Operand::Address(r), q)),
        None => None,
    }
}

/// Parses `*` and a register as an indirect operand.
pub fn parse_pointer(input: &str) -> (r: Result<(&str, Operand), ParseError>)
    ensures
        match spec_pointer(input@, 0) {
            Some((o, q)) => r matches Ok((rest, x)) && x@ == o && rest@ == input@.subrange(
                q,
                input@.len() as int,
            ),
            None => r matches Err(e) && e.grammar == Grammar::Pointer && e.text@ == input@,
        },
{
    let s = chars_of(input);
    match pointer_at(&s, 0) {
        Some((o, q)) => Ok((rest_of(input, q), o)),
        None => Err(ParseError::new(Grammar::Pointer, input)),
    }
}

/// Parses `*`, a register and `+` as an indirect, post-incremented operand.
pub fn parse_incremented_pointer(input: &str) -> (r: Result<(&str, Operand), ParseError>)
    ensures
        match spec_incremented_pointer(input@, 0) {
            Some((o, q)) => r matches Ok((rest, x)) && x@ == o && rest@ == input@.subrange(
                q,
                input@.len() as int,
            ),
            None => r matches Err(e) && e.grammar == Grammar::Pointer && e.text@ == input@,
        },
{
    let s = chars_of(input);
    match incremented_pointer_at(&s, 0) {
        Some((o, q)) => Ok((rest_of(input, q), o)),
        None => Err(ParseError::new(Grammar::Pointer, input)),
    }
}

} // verus!
