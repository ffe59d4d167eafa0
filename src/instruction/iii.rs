//! Format III: a mnemonic, an operand, a comma, a signed 16-bit immediate.
use vstd::prelude::*;
use crate::error::{Grammar, ParseError};
use crate::lexical::{chars_of, rest_of};
use crate::opcode::{mnemonic_at, spec_mnemonic, Format};
use super::{comma_at, space1_at, spec_comma, spec_space1, Instruction, InstructionView};
use crate::hexadecimal::{i16_at, spec_i16};
use crate::operand::{operand_at, spec_operand};

verus! {

/// `LI R3, 0x7` and the like. The immediate is kept as its bit pattern.
pub open spec fn spec_parse(s: Seq<char>, p: int) -> Option<(InstructionView, int)> {
    match spec_mnemonic(Format::III, s, p) {
        None => None,
        Some((name, q1)) => match spec_space1(s, q1) {
            None => None,
            Some(q2) => match spec_operand(s, q2) {
                None => None,
                Some((dst, q3)) => match spec_comma(s, q3) {
                    None => None,
                    Some(q4) => match spec_i16(s, q4) {
                        None => None,
                        Some((imm, q5)) => Some(
                            (
                                InstructionView::Iii { opname: name, tsd: dst, immediate: imm },
                                q5,
                            ),
                        ),
                    },
                },
            },
        },
    }
}

/// The bit pattern of a signed 16-bit immediate.
pub fn immediate_value(s: &Vec<char>, p: usize) -> (r: Option<(u16, usize)>)
    requires
        p <= s.len(),
    ensures
        match r {
            None => spec_i16(s@, p as int) is None,
            Some((v, q)) => spec_i16(s@, p as int) == Some((v, q as int)) && q <= s.len(),
        },
{
    i16_at(s, p)
}

pub fn parse_at(s: &Vec<char>, p: usize) -> (r: Option<(Instruction, usize)>)
    requires
        p <= s.len(),
    ensures
        match r {
            None => spec_parse(s@, p as int) is None,
            Some((x, q)) => spec_parse(s@, p as int) == Some((x@, q as int)) && q <= s.len(),
        },
{
    let (name, q1) = match mnemonic_at(Format::III, s, p) {
        Some(r) => r,
        None => return None,
    };
    let q2 = match space1_at(s, q1) {
        Some(q) => q,
        None => return None,
    };
    let (dst, q3) = match operand_at(s, q2) {
        Some(r) => r,
        None => return None,
    };
    let q4 = match comma_at(s, q3) {
        Some(q) => q,
        None => return None,
    };
    let (imm, q5) = match immediate_value(s, q4) {
        Some(r) => r,
        None => return None,
    };
    Some((Instruction::Iii { opname: name, tsd: dst, immediate: imm }, q5))
}

/// Parses a format III instruction.
pub fn parse(input: &str) -> (r: Result<(&str, Instruction), ParseError>)
    ensures
        match spec_parse(input@, 0) {
            Some((x, q)) => r matches Ok((rest, y)) && y@ == x && rest@ == input@.subrange(
                q,
                input@.len() as int,
            ),
            None => r matches Err(e) && e.grammar == Grammar::Instruction && e.text@ == input@,
        },
{
    let s = chars_of(input);
    match parse_at(&s, 0) {
        Some((x, q)) => Ok((rest_of(input, q), x)),
        None => Err(ParseError::new(Grammar::Instruction, input)),
    }
}

} // verus!
