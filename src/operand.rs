//! Operands: the four addressing modes and their text.
use vstd::prelude::*;
use crate::address::{address_at, spec_address, Address, AddressView};
use crate::error::{Grammar, ParseError};
use crate::lexical::{
    alphanumeric, chars_of, class_end, decimal_text, in_class, is_digit, lemma_run_end_full, rest_of,
    CharClass,
};
use crate::pointer::{
    incremented_pointer_at, pointer_at, spec_incremented_pointer, spec_pointer,
};
use crate::register::{lemma_register_text, register_at, spec_register, Register};

verus! {

/// An operand, by addressing mode.
#[derive(Debug)]
pub enum Operand {
    /// The value in a register; mode `00`.
    Direct(Register),
    /// The word that follows the instruction word, an address; mode `01`.
    NextWord(Address),
    /// The word a register points to; mode `10`.
    Address(Register),
    /// The word a register points to, the register incremented after; mode `11`.
    AddressIncrement(Register),
}

/// An operand as a plain value.
pub enum OperandView {
    Direct(Register),
    NextWord(AddressView),
    Address(Register),
    AddressIncrement(Register),
}

impl View for Operand {
    type V = OperandView;

    open spec fn view(&self) -> OperandView {
        match self {
            Operand::Direct(r) => OperandView::Direct(*r),
            Operand::NextWord(a) => OperandView::NextWord(a@),
            Operand::Address(r) => OperandView::Address(*r),
            Operand::AddressIncrement(r) => OperandView::AddressIncrement(*r),
        }
    }
}

impl PartialEq for Operand {
    fn eq(&self, o: &Operand) -> (r: bool) {
        match (self, o) {
            (Operand::Direct(a), Operand::Direct(b)) => a.0 == b.0,
            (Operand::NextWord(a), Operand::NextWord(b)) => a.eq(b),
            (Operand::Address(a), Operand::Address(b)) => a.0 == b.0,
            (Operand::AddressIncrement(a), Operand::AddressIncrement(b)) => a.0 == b.0,
            _ => false,
        }
    }
}

impl vstd::std_specs::cmp::PartialEqSpecImpl for Operand {
    open spec fn obeys_eq_spec() -> bool {
        true
    }

    open spec fn eq_spec(&self, o: &Operand) -> bool {
        self@ == o@
    }
}

/// The two mode bits of an operand.
pub open spec fn spec_mode_bits(o: OperandView) -> u16 {
    match o {
        OperandView::Direct(_) => 0b00,
        OperandView::NextWord(_) => 0b01,
        OperandView::Address(_) => 0b10,
        OperandView::AddressIncrement(_) => 0b11,
    }
}

/// The four register bits of an operand: its register's index, or 0 for a
/// next-word operand.
pub open spec fn spec_register_value(o: OperandView) -> u16 {
    match o {
        OperandView::Direct(r) => r.0 as u16,
        OperandView::NextWord(_) => 0,
        OperandView::Address(r) => r.0 as u16,
        OperandView::AddressIncrement(r) => r.0 as u16,
    }
}

impl Operand {
    /// The two mode bits.
    pub fn mode_bits(&self) -> (r: u16)
        ensures
            r == spec_mode_bits(self@),
    {
        match self {
            Operand::Direct(_) => 0b00,
            Operand::NextWord(_) => 0b01,
            Operand::Address(_) => 0b10,
            Operand::AddressIncrement(_) => 0b11,
        }
    }

    /// The register bits.
    pub fn get_register_value(&self) -> (r: u16)
        ensures
            r == spec_register_value(self@),
    {
        match self {
            Operand::Direct(r) => r.0 as u16,
            Operand::NextWord(_) => 0,
            Operand::Address(r) => r.0 as u16,
            Operand::AddressIncrement(r) => r.0 as u16,
        }
    }
}

impl From<&Operand> for u16 {
    /// The operand's two mode bits.
    fn from(op: &Operand) -> (r: u16) {
        op.mode_bits()
    }
}

impl vstd::std_specs::convert::FromSpecImpl<&Operand> for u16 {
    open spec fn obeys_from_spec() -> bool {
        true
    }

    open spec fn from_spec(op: &Operand) -> u16 {
        spec_mode_bits(op@)
    }
}

/// A register as a direct operand.
pub open spec fn spec_register_operand(s: Seq<char>, p: int) -> Option<(OperandView, int)> {
    match spec_register(s, p) {
        Some((r, q)) => Some((OperandView::Direct(r), q)),
        None => None,
    }
}

/// An address as a next-word operand.
pub open spec fn spec_address_operand(s: Seq<char>, p: int) -> Option<(OperandView, int)> {
    match spec_address(s, p) {
        Some((a, q)) => Some((OperandView::NextWord(a), q)),
        None => None,
    }
}

/// The first of these that matches: an incremented pointer, a pointer, a
/// register, an address. The incremented pointer comes before the pointer,
/// which would match its start and leave the `+`.
pub open spec fn spec_operand(s: Seq<char>, p: int) -> Option<(OperandView, int)> {
    match spec_incremented_pointer(s, p) {
        Some(r) => Some(r),
        None => match spec_pointer(s, p) {
            Some(r) => Some(r),
            None => match spec_register_operand(s, p) {
                Some(r) => Some(r),
                None => spec_address_operand(s, p),
            },
        },
    }
}

pub fn operand_at(s: &Vec<char>, p: usize) -> (r: Option<(Operand, usize)>)
    requires
        p <= s.len(),
    ensures
        match r {
            None => spec_operand(s@, p as int) is None,
            Some((o, q)) => spec_operand(s@, p as int) == Some((o@, q as int)) && q <= s.len(),
        },
{
    if let Some(r) = incremented_pointer_at(s, p) {
        return Some(r);
    }
    if let Some(r) = pointer_at(s, p) {
        return Some(r);
    }
    if let Some((reg, q)) = register_at(s, p) {
        return Some((Operand::Direct(reg), q));
    }
    match address_at(s, p) {
        Some((a, q)) => Some((Operand::NextWord(a), q)),
        None => None,
    }
}

/// Each addressing mode's text reads as that mode, whole, and its mode bits
/// are the mode's code: `R{n}` is direct (00), `@name` is next-word (01),
/// `*R{n}` is indirect (10) and `*R{n}+` is indirect with increment (11). The
/// incremented form is never read as a pointer with the `+` left over.
pub proof fn lemma_operand_modes(n: nat, name: Seq<char>)
    requires
        n < 16,
        forall|i: int| 0 <= i < name.len() ==> alphanumeric(#[trigger] name[i]),
    ensures
        ({
            let t = decimal_text(n);
            let k = t.len() as int;
            let r = Register(n as u8);
            &&& spec_operand(seq!['R'] + t, 0) == Some((OperandView::Direct(r), 1 + k))
            &&& spec_operand(seq!['*', 'R'] + t, 0) == Some((OperandView::Address(r), 2 + k))
            &&& spec_operand(seq!['*', 'R'] + t + seq!['+'], 0) == Some(
                (OperandView::AddressIncrement(r), 3 + k),
            )
            &&& spec_operand(seq!['@'] + name, 0) == Some(
                (OperandView::NextWord(AddressView::Symbolic(name)), 1 + name.len() as int),
            )
            &&& spec_mode_bits(OperandView::Direct(r)) == 0b00
            &&& spec_mode_bits(OperandView::NextWord(AddressView::Symbolic(name))) == 0b01
            &&& spec_mode_bits(OperandView::Address(r)) == 0b10
            &&& spec_mode_bits(OperandView::AddressIncrement(r)) == 0b11
        }),
{
    let t = decimal_text(n);
    let k = t.len() as int;
    let r = Register(n as u8);
    let direct = seq!['R'] + t;
    assert(direct.subrange(0, 1 + k) =~= direct);
    lemma_register_text(direct, 0, n);
    assert(direct[0] == 'R');
    let pointer = seq!['*', 'R'] + t;
    assert(pointer.subrange(1, 2 + k) =~= seq!['R'] + t);
    lemma_register_text(pointer, 1, n);
    assert(pointer[0] == '*');
    let incremented = seq!['*', 'R'] + t + seq!['+'];
    assert(incremented.subrange(1, 2 + k) =~= seq!['R'] + t);
    assert(incremented[2 + k] == '+');
    assert(!is_digit('+'));
    lemma_register_text(incremented, 1, n);
    assert(incremented[0] == '*');
    let symbolic = seq!['@'] + name;
    assert(symbolic[0] == '@');
    assert forall|i: int| 1 <= i < symbolic.len() implies in_class(
        CharClass::Alphanumeric,
        #[trigger] symbolic[i],
    ) by {
        assert(symbolic[i] == name[i - 1]);
    }
    lemma_run_end_full(symbolic, 1, symbolic.len(), CharClass::Alphanumeric);
    assert(class_end(symbolic, 1, CharClass::Alphanumeric) == symbolic.len());
    assert(symbolic.subrange(1, symbolic.len() as int) =~= name);
}

/// Parses an operand: `*R1+`, `*R1`, `R1`, `0x1000` or `@Label`.
pub fn parse_operand(input: &str) -> (r: Result<(&str, Operand), ParseError>)
    ensures
        match spec_operand(input@, 0) {
            Some((o, q)) => r matches Ok((rest, x)) && x@ == o && rest@ == input@.subrange(
                q,
                input@.len() as int,
            ),
            None => r matches Err(e) && e.grammar == Grammar::Operand && e.text@ == input@,
        },
{
    let s = chars_of(input);
    match operand_at(&s, 0) {
        Some((o, q)) => Ok((rest_of(input, q), o)),
        None => Err(ParseError::new(Grammar::Operand, input)),
    }
}

} // verus!
