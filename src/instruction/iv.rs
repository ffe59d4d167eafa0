//! Format IV: a mnemonic and an operand, or `ROI` alone.
use vstd::prelude::*;
use crate::error::{Grammar, ParseError};
use crate::lexical::{chars_of, has_tag, rest_of, string_of, tag_at};
use crate::opcode::{mnemonic_at, spec_mnemonic, Format};
use crate::operand::{operand_at, spec_operand, Operand, OperandView};
use crate::register::Register;
use super::{space1_at, spec_space1, Instruction, InstructionView};

verus! {

/// The mnemonic that takes no operand.
pub open spec fn roi() -> Seq<char> {
    seq!['R', 'O', 'I']
}

/// `INC R1` and the like.
pub open spec fn spec_generic(s: Seq<char>, p: int) -> Option<(InstructionView, int)> {
    match spec_mnemonic(Format::IV, s, p) {
        None => None,
        Some((name, q1)) => match spec_space1(s, q1) {
            None => None,
            Some(q2) => match spec_operand(s, q2) {
                None => None,
                Some((x, q3)) => Some((InstructionView::IV { opname: name, tsd: x }, q3)),
            },
        },
    }
}

/// `ROI`, which gets register 0 as its operand so that it encodes as the
/// others do.
pub open spec fn spec_roi(s: Seq<char>, p: int) -> Option<(InstructionView, int)> {
    if has_tag(s, p, roi()) {
        Some(
            (
                InstructionView::IV { opname: roi(), tsd: OperandView::Direct(Register(0)) },
                p + 3,
            ),
        )
    } else {
        None
    }
}

pub open spec fn spec_parse(s: Seq<char>, p: int) -> Option<(InstructionView, int)> {
    match spec_generic(s, p) {
        Some(r) => Some(r),
        None => spec_roi(s, p),
    }
}

pub fn generic_at(s: &Vec<char>, p: usize) -> (r: Option<(Instruction, usize)>)
    requires
        p <= s.len(),
    ensures
        match r {
            None => spec_generic(s@, p as int) is None,
            Some((x, q)) => spec_generic(s@, p as int) == Some((x@, q as int)) && q <= s.len(),
        },
{
    let (name, q1) = match mnemonic_at(Format::IV, s, p) {
        Some(r) => r,
        None => return None,
    };
    let q2 = match space1_at(s, q1) {
        Some(q) => q,
        None => return None,
    };
    let (x, q3) = match operand_at(s, q2) {
        Some(r) => r,
        None => return None,
    };
    Some((Instruction::IV { opname: name, tsd: x }, q3))
}

pub fn roi_at(s: &Vec<char>, p: usize) -> (r: Option<(Instruction, usize)>)
    requires
        p <= s.len(),
    ensures
        match r {
            None => spec_roi(s@, p as int) is None,
            Some((x, q)) => spec_roi(s@, p as int) == Some((x@, q as int)) && q <= s.len(),
        },
{
    let t = vec!['R', 'O', 'I'];
    if !tag_at(s, p, &t) {
        return None;
    }
    let name = string_of(s, p, p + 3);
    Some((Instruction::IV { opname: name, tsd: Operand::Direct(Register(0)) }, p + 3))
}

pub fn parse_at(s: &Vec<char>, p: usize) -> (r: Option<(Instruction, usize)>)
    requires
        p <= s.len(),
    ensures
        match r {
            None => spec_parse(s@, p as int) is None,
            Some((x, q)) => spec_parse(s@, p as int) == Some((x@, q as int)) && q <= s.len(),
        },
{
    match generic_at(s, p) {
        Some(r) => Some(r),
        None => roi_at(s, p),
    }
}

/// Parses a format IV instruction.
pub fn parse(input: &str) -> (r: Result<(&str, Instruction), ParseError>)
    ensures
        match spec_parse(input@, 0) {
            Some((x, q)) => r matches Ok((rest, y)) && y@ == x && rest@ == input@.subrange(
                q,
                input@.len() as int,
            ),
            None => r matches Err(e) && e.grammar == Grammar::Instruction && e.text@ == input@,
        },
{
    let s = chars_of(input);
    match parse_at(&s, 0) {
        Some((x, q)) => Ok((rest_of(input, q), x)),
        None => Err(ParseError::new(Grammar::Instruction, input)),
    }
}

} // verus!
