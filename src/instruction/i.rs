//! Format I: a mnemonic, a source operand, a comma, a destination operand.
use vstd::prelude::*;
use crate::error::{Grammar, ParseError};
use crate::lexical::{chars_of, rest_of};
use crate::opcode::{mnemonic_at, spec_mnemonic, Format};
use super::{comma_at, space1_at, spec_comma, spec_space1, Instruction, InstructionView};
use crate::operand::{operand_at, spec_operand};

verus! {

/// `OR R1, *R2` and the like.
pub open spec fn spec_parse(s: Seq<char>, p: int) -> Option<(InstructionView, int)> {
    match spec_mnemonic(Format::I, s, p) {
        None => None,
        Some((name, q1)) => match spec_space1(s, q1) {
            None => None,
            Some(q2) => match spec_operand(s, q2) {
                None => None,
                Some((src, q3)) => match spec_comma(s, q3) {
                    None => None,
                    Some(q4) => match spec_operand(s, q4) {
                        None => None,
                        Some((dst, q5)) => Some(
                            (InstructionView::I { opname: name, ts: src, tsd: dst }, q5),
                        ),
                    },
                },
            },
        },
    }
}

pub fn parse_at(s: &Vec<char>, p: usize) -> (r: Option<(Instruction, usize)>)
    requires
        p <= s.len(),
    ensures
        match r {
            None => spec_parse(s@, p as int) is None,
            Some((x, q)) => spec_parse(s@, p as int) == Some((x@, q as int)) && q <= s.len(),
        },
{
    let (name, q1) = match mnemonic_at(Format::I, s, p) {
        Some(r) => r,
        None => return None,
    };
    let q2 = match space1_at(s, q1) {
        Some(q) => q,
        None => return None,
    };
    let (src, q3) = match operand_at(s, q2) {
        Some(r) => r,
        None => return None,
    };
    let q4 = match comma_at(s, q3) {
        Some(q) => q,
        None => return None,
    };
    let (dst, q5) = match operand_at(s, q4) {
        Some(r) => r,
        None => return None,
    };
    Some((Instruction::I { opname: name, ts: src, tsd: dst }, q5))
}

/// Parses a format I instruction.
pub fn parse(input: &str) -> (r: Result<(&str, Instruction), ParseError>)
    ensures
        match spec_parse(input@, 0) {
            Some((x, q)) => r matches Ok((rest, y)) && y@ == x && rest@ == input@.subrange(
                q,
                input@.len() as int,
            ),
            None => r matches Err(e) && e.grammar == Grammar::Instruction && e.text@ == input@,
        },
{
    let s = chars_of(input);
    match parse_at(&s, 0) {
        Some((x, q)) => Ok((rest_of(input, q), x)),
        None => Err(ParseError::new(Grammar::Instruction, input)),
    }
}

} // verus!
