//! Instructions: the six formats, their text, and their encoding into words.
use vstd::prelude::*;
use crate::address::{spec_resolve, spec_resolve_relative, Address, AddressView};
use crate::error::{Grammar, ParseError};
use crate::lexical::{char_at, char_is, chars_of, class_end, rest_of, scan_class, CharClass};
use crate::opcode::{lookup_opcode, opcode_limit, spec_opcode, Format};
use crate::operand::{spec_mode_bits, spec_register_value, Operand, OperandView};
use crate::register::REGISTER_COUNT;
use crate::symbols::SymbolTable;
use crate::word::{
    pack_i, pack_ii, pack_iii, pack_unary, pack_vi, word_i, word_ii, word_iii, word_unary, word_vi,
};

pub mod i;
pub mod ii;
pub mod iii;
pub mod iv;
pub mod v;
pub mod vi;

verus! {

/// An instruction, by format, with its mnemonic and operands.
#[derive(Debug)]
pub enum Instruction {
    /// Two operands, source and destination.
    I { opname: String, ts: Operand, tsd: Operand },
    /// A shift amount and an operand.
    II { opname: String, shift: u8, tsd: Operand },
    /// An operand and a 16-bit immediate, kept as its bit pattern.
    Iii { opname: String, tsd: Operand, immediate: u16 },
    /// One operand.
    IV { opname: String, tsd: Operand },
    /// One operand, for branches.
    V { opname: String, tsd: Operand },
    /// A relative displacement, for jumps.
    VI { opname: String, displacement: Address },
}

/// An instruction as a plain value.
pub enum InstructionView {
    I { opname: Seq<char>, ts: OperandView, tsd: OperandView },
    II { opname: Seq<char>, shift: u8, tsd: OperandView },
    Iii { opname: Seq<char>, tsd: OperandView, immediate: u16 },
    IV { opname: Seq<char>, tsd: OperandView },
    V { opname: Seq<char>, tsd: OperandView },
    VI { opname: Seq<char>, displacement: AddressView },
}

impl View for Instruction {
    type V = InstructionView;

    open spec fn view(&self) -> InstructionView {
        match self {
            Instruction::I { opname, ts, tsd } => InstructionView::I {
                opname: opname@,
                ts: ts@,
                tsd: tsd@,
            },
            Instruction::II { opname, shift, tsd } => InstructionView::II {
                opname: opname@,
                shift: *shift,
                tsd: tsd@,
            },
            Instruction::Iii { opname, tsd, immediate } => InstructionView::Iii {
                opname: opname@,
                tsd: tsd@,
                immediate: *immediate,
            },
            Instruction::IV { opname, tsd } => InstructionView::IV { opname: opname@, tsd: tsd@ },
            Instruction::V { opname, tsd } => InstructionView::V { opname: opname@, tsd: tsd@ },
            Instruction::VI { opname, displacement } => InstructionView::VI {
                opname: opname@,
                displacement: displacement@,
            },
        }
    }
}

impl PartialEq for Instruction {
    fn eq(&self, o: &Instruction) -> (r: bool) {
        match (self, o) {
            (
                Instruction::I { opname: a, ts: b, tsd: c },
                Instruction::I { opname: x, ts: y, tsd: z },
            ) => *a == *x && b.eq(y) && c.eq(z),
            (
                Instruction::II { opname: a, shift: b, tsd: c },
                Instruction::II { opname: x, shift: y, tsd: z },
            ) => *a == *x && *b == *y && c.eq(z),
            (
                Instruction::Iii { opname: a, tsd: b, immediate: c },
                Instruction::Iii { opname: x, tsd: y, immediate: z },
            ) => *a == *x && b.eq(y) && *c == *z,
            (Instruction::IV { opname: a, tsd: b }, Instruction::IV { opname: x, tsd: y }) => *a
                == *x && b.eq(y),
            (Instruction::V { opname: a, tsd: b }, Instruction::V { opname: x, tsd: y }) => *a
                == *x && b.eq(y),
            (
                Instruction::VI { opname: a, displacement: b },
                Instruction::VI { opname: x, displacement: y },
            ) => *a == *x && b.eq(y),
            _ => false,
        }
    }
}

impl vstd::std_specs::cmp::PartialEqSpecImpl for Instruction {
    open spec fn obeys_eq_spec() -> bool {
        true
    }

    open spec fn eq_spec(&self, o: &Instruction) -> bool {
        self@ == o@
    }
}

/// Why an instruction could not be encoded.
#[derive(Debug)]
pub enum EncodeError {
    /// The mnemonic has no opcode in the instruction's format.
    UnknownMnemonic(String),
    /// A register index or a shift amount does not fit its 4-bit field.
    OutOfRange,
    /// A label that the symbol table does not define.
    UnresolvedSymbol(String),
    /// A relative address where an absolute one is needed.
    NotAbsolute,
}

pub enum EncodeErrorView {
    UnknownMnemonic(Seq<char>),
    OutOfRange,
    UnresolvedSymbol(Seq<char>),
    NotAbsolute,
}

impl View for EncodeError {
    type V = EncodeErrorView;

    open spec fn view(&self) -> EncodeErrorView {
        match self {
            EncodeError::UnknownMnemonic(n) => EncodeErrorView::UnknownMnemonic(n@),
            EncodeError::OutOfRange => EncodeErrorView::OutOfRange,
            EncodeError::UnresolvedSymbol(n) => EncodeErrorView::UnresolvedSymbol(n@),
            EncodeError::NotAbsolute => EncodeErrorView::NotAbsolute,
        }
    }
}

impl PartialEq for EncodeError {
    fn eq(&self, o: &EncodeError) -> (r: bool) {
        match (self, o) {
            (EncodeError::UnknownMnemonic(a), EncodeError::UnknownMnemonic(b)) => *a == *b,
            (EncodeError::OutOfRange, EncodeError::OutOfRange) => true,
            (EncodeError::UnresolvedSymbol(a), EncodeError::UnresolvedSymbol(b)) => *a == *b,
            (EncodeError::NotAbsolute, EncodeError::NotAbsolute) => true,
            _ => false,
        }
    }
}

impl vstd::std_specs::cmp::PartialEqSpecImpl for EncodeError {
    open spec fn obeys_eq_spec() -> bool {
        true
    }

    open spec fn eq_spec(&self, o: &EncodeError) -> bool {
        self@ == o@
    }
}

pub open spec fn format_of(i: InstructionView) -> Format {
    match i {
        InstructionView::I { .. } => Format::I,
        InstructionView::II { .. } => Format::II,
        InstructionView::Iii { .. } => Format::III,
        InstructionView::IV { .. } => Format::IV,
        InstructionView::V { .. } => Format::V,
        InstructionView::VI { .. } => Format::VI,
    }
}

pub open spec fn opname_of(i: InstructionView) -> Seq<char> {
    match i {
        InstructionView::I { opname, .. } => opname,
        InstructionView::II { opname, .. } => opname,
        InstructionView::Iii { opname, .. } => opname,
        InstructionView::IV { opname, .. } => opname,
        InstructionView::V { opname, .. } => opname,
        InstructionView::VI { opname, .. } => opname,
    }
}

pub open spec fn operand_in_range(o: OperandView) -> bool {
    spec_register_value(o) < REGISTER_COUNT
}

/// Whether every register index and shift amount fits its 4-bit field.
pub open spec fn in_range(i: InstructionView) -> bool {
    match i {
        InstructionView::I { ts, tsd, .. } => operand_in_range(ts) && operand_in_range(tsd),
        InstructionView::II { shift, tsd, .. } => shift < 16 && operand_in_range(tsd),
        InstructionView::Iii { tsd, .. } => operand_in_range(tsd),
        InstructionView::IV { tsd, .. } => operand_in_range(tsd),
        InstructionView::V { tsd, .. } => operand_in_range(tsd),
        InstructionView::VI { .. } => true,
    }
}

/// The low byte of a format VI word: a literal offset's bits, else zero.
pub open spec fn displacement_bits(a: AddressView) -> u16 {
    match spec_resolve_relative(a) {
        Some(v) => (v as u8) as u16,
        None => 0,
    }
}

/// The opcode word, for opcode `op`.
pub open spec fn first_word(i: InstructionView, op: u16) -> u16 {
    match i {
        InstructionView::I { ts, tsd, .. } => word_i(
            op,
            spec_mode_bits(ts),
            spec_register_value(ts),
            spec_mode_bits(tsd),
            spec_register_value(tsd),
        ),
        InstructionView::II { shift, tsd, .. } => word_ii(
            op,
            shift as u16,
            spec_mode_bits(tsd),
            spec_register_value(tsd),
        ),
        InstructionView::Iii { tsd, .. } => word_iii(
            op,
            spec_mode_bits(tsd),
            spec_register_value(tsd),
        ),
        InstructionView::IV { tsd, .. } => word_unary(
            0b11100,
            op,
            spec_mode_bits(tsd),
            spec_register_value(tsd),
        ),
        InstructionView::V { tsd, .. } => word_unary(
            0b11101,
            op,
            spec_mode_bits(tsd),
            spec_register_value(tsd),
        ),
        InstructionView::VI { displacement, .. } => word_vi(op, displacement_bits(displacement)),
    }
}

/// The error for an address with no absolute value.
pub open spec fn unresolved(a: AddressView) -> EncodeErrorView {
    match a {
        AddressView::Symbolic(n) => EncodeErrorView::UnresolvedSymbol(n),
        _ => EncodeErrorView::NotAbsolute,
    }
}

/// The extension word of an operand: its resolved address for a next-word
/// operand, none for the others.
pub open spec fn spec_next_word(o: OperandView, st: Map<Seq<char>, u16>) -> Result<
    Seq<u16>,
    EncodeErrorView,
> {
    match o {
        OperandView::NextWord(a) => match spec_resolve(a, st) {
            Some(v) => Ok(seq![v]),
            None => Err(unresolved(a)),
        },
        _ => Ok(Seq::empty()),
    }
}

/// The source operand's extension word, in format I.
pub open spec fn source_words(i: InstructionView, st: Map<Seq<char>, u16>) -> Result<
    Seq<u16>,
    EncodeErrorView,
> {
    match i {
        InstructionView::I { ts, .. } => spec_next_word(ts, st),
        _ => Ok(Seq::empty()),
    }
}

/// The immediate word, in format III.
pub open spec fn immediate_words(i: InstructionView) -> Seq<u16> {
    match i {
        InstructionView::Iii { immediate, .. } => seq![immediate],
        _ => Seq::empty(),
    }
}

/// The destination operand's extension word, in every format but VI.
pub open spec fn destination_words(i: InstructionView, st: Map<Seq<char>, u16>) -> Result<
    Seq<u16>,
    EncodeErrorView,
> {
    match i {
        InstructionView::I { tsd, .. } => spec_next_word(tsd, st),
        InstructionView::II { tsd, .. } => spec_next_word(tsd, st),
        InstructionView::Iii { tsd, .. } => spec_next_word(tsd, st),
        InstructionView::IV { tsd, .. } => spec_next_word(tsd, st),
        InstructionView::V { tsd, .. } => spec_next_word(tsd, st),
        InstructionView::VI { .. } => Ok(Seq::empty()),
    }
}

/// The words of an instruction: the opcode word, then the source's extension
/// word, the immediate, and the destination's extension word, each where the
/// format and the operand have one. It fails on a mnemonic that the format
/// does not have, a field that does not fit, or an address that does not
/// resolve, checked in that order.
pub open spec fn spec_encode(i: InstructionView, st: Map<Seq<char>, u16>) -> Result<
    Seq<u16>,
    EncodeErrorView,
> {
    match spec_opcode(format_of(i), opname_of(i)) {
        None => Err(EncodeErrorView::UnknownMnemonic(opname_of(i))),
        Some(op) => if !in_range(i) {
            Err(EncodeErrorView::OutOfRange)
        } else {
            match source_words(i, st) {
                Err(e) => Err(e),
                Ok(src) => match destination_words(i, st) {
                    Err(e) => Err(e),
                    Ok(dst) => Ok(seq![first_word(i, op)] + src + immediate_words(i) + dst),
                },
            }
        },
    }
}

/// One or more spaces or tabs: where they end.
pub open spec fn spec_space1(s: Seq<char>, p: int) -> Option<int> {
    let q = class_end(s, p, CharClass::Space);
    if q > p {
        Some(q)
    } else {
        None
    }
}

/// Spaces, a comma, spaces: where they end.
pub open spec fn spec_comma(s: Seq<char>, p: int) -> Option<int> {
    let q = class_end(s, p, CharClass::Space);
    if char_is(s, q, ',') {
        Some(class_end(s, q + 1, CharClass::Space))
    } else {
        None
    }
}

pub fn space1_at(s: &Vec<char>, p: usize) -> (r: Option<usize>)
    requires
        p <= s.len(),
    ensures
        match r {
            None => spec_space1(s@, p as int) is None,
            Some(q) => spec_space1(s@, p as int) == Some(q as int) && q <= s.len(),
        },
{
    let q = scan_class(s, p, CharClass::Space);
    if q > p {
        Some(q)
    } else {
        None
    }
}

pub fn comma_at(s: &Vec<char>, p: usize) -> (r: Option<usize>)
    requires
        p <= s.len(),
    ensures
        match r {
            None => spec_comma(s@, p as int) is None,
            Some(q) => spec_comma(s@, p as int) == Some(q as int) && q <= s.len(),
        },
{
    let q = scan_class(s, p, CharClass::Space);
    if char_at(s, q, ',') {
        Some(scan_class(s, q + 1, CharClass::Space))
    } else {
        None
    }
}

/// The first format whose grammar matches, tried from I to VI.
pub open spec fn spec_instruction(s: Seq<char>, p: int) -> Option<(InstructionView, int)> {
    match i::spec_parse(s, p) {
        Some(r) => Some(r),
        None => match ii::spec_parse(s, p) {
            Some(r) => Some(r),
            None => match iii::spec_parse(s, p) {
                Some(r) => Some(r),
                None => match iv::spec_parse(s, p) {
                    Some(r) => Some(r),
                    None => match v::spec_parse(s, p) {
                        Some(r) => Some(r),
                        None => vi::spec_parse(s, p),
                    },
                },
            },
        },
    }
}

pub fn instruction_at(s: &Vec<char>, p: usize) -> (r: Option<(Instruction, usize)>)
    requires
        p <= s.len(),
    ensures
        match r {
            None => spec_instruction(s@, p as int) is None,
            Some((x, q)) => spec_instruction(s@, p as int) == Some((x@, q as int)) && q <= s.len(),
        },
{
    if let Some(r) = i::parse_at(s, p) {
        return Some(r);
    }
    if let Some(r) = ii::parse_at(s, p) {
        return Some(r);
    }
    if let Some(r) = iii::parse_at(s, p) {
        return Some(r);
    }
    if let Some(r) = iv::parse_at(s, p) {
        return Some(r);
    }
    if let Some(r) = v::parse_at(s, p) {
        return Some(r);
    }
    vi::parse_at(s, p)
}

/// Parses an instruction of any format.
pub fn parse_instruction(input: &str) -> (r: Result<(&str, Instruction), ParseError>)
    ensures
        match spec_instruction(input@, 0) {
            Some((x, q)) => r matches Ok((rest, y)) && y@ == x && rest@ == input@.subrange(
                q,
                input@.len() as int,
            ),
            None => r matches Err(e) && e.grammar == Grammar::Instruction && e.text@ == input@,
        },
{
    let s = chars_of(input);
    match instruction_at(&s, 0) {
        Some((x, q)) => Ok((rest_of(input, q), x)),
        None => Err(ParseError::new(Grammar::Instruction, input)),
    }
}

/// Encoding is a function of the instruction and the symbol table alone:
/// equal inputs give the same words, or the same error.
pub proof fn lemma_encode_deterministic(
    a: InstructionView,
    b: InstructionView,
    s: Map<Seq<char>, u16>,
    t: Map<Seq<char>, u16>,
)
    requires
        a == b,
        s == t,
    ensures
        spec_encode(a, s) == spec_encode(b, t),
{
}

/// The destination operand, in every format but VI.
pub open spec fn destination_operand(i: InstructionView) -> Option<OperandView> {
    match i {
        InstructionView::I { tsd, .. } => Some(tsd),
        InstructionView::II { tsd, .. } => Some(tsd),
        InstructionView::Iii { tsd, .. } => Some(tsd),
        InstructionView::IV { tsd, .. } => Some(tsd),
        InstructionView::V { tsd, .. } => Some(tsd),
        InstructionView::VI { .. } => None,
    }
}

/// An instruction that reads a label the table does not define never
/// encodes. The label is read as the source of format I, or as the
/// destination of formats I to V after a source that resolves. When the
/// mnemonic is known and the fields fit, the error names that label.
pub proof fn lemma_missing_symbol(i: InstructionView, st: Map<Seq<char>, u16>, n: Seq<char>)
    requires
        !st.contains_key(n),
        (i matches InstructionView::I { ts, .. } && ts == OperandView::NextWord(
            AddressView::Symbolic(n),
        )) || (destination_operand(i) == Some(
            OperandView::NextWord(AddressView::Symbolic(n)),
        ) && source_words(i, st) is Ok),
    ensures
        spec_encode(i, st) is Err,
        spec_opcode(format_of(i), opname_of(i)) is Some && in_range(i) ==> spec_encode(i, st)
            == Err::<Seq<u16>, EncodeErrorView>(EncodeErrorView::UnresolvedSymbol(n)),
{
}

/// The extension word of an operand, resolved against `symbols`.
fn next_word(o: &Operand, symbols: &SymbolTable) -> (r: Result<Option<u16>, EncodeError>)
    ensures
        match r {
            Ok(None) => spec_next_word(o@, symbols@) == Ok::<Seq<u16>, EncodeErrorView>(
                Seq::empty(),
            ),
            Ok(Some(v)) => spec_next_word(o@, symbols@) == Ok::<Seq<u16>, EncodeErrorView>(
                seq![v],
            ),
            Err(e) => spec_next_word(o@, symbols@) == Err::<Seq<u16>, EncodeErrorView>(e@),
        },
{
    match o {
        Operand::NextWord(address) => match address.resolve(symbols) {
            Some(v) => Ok(Some(v)),
            None => match address {
                Address::Symbolic(name) => Err(EncodeError::UnresolvedSymbol(name.clone())),
                _ => Err(EncodeError::NotAbsolute),
            },
        },
        _ => Ok(None),
    }
}

fn operand_fits(o: &Operand) -> (r: bool)
    ensures
        r == operand_in_range(o@),
{
    o.get_register_value() < REGISTER_COUNT as u16
}

impl Instruction {
    pub fn format(&self) -> (r: Format)
        ensures
            r == format_of(self@),
    {
        match self {
            Instruction::I { .. } => Format::I,
            Instruction::II { .. } => Format::II,
            Instruction::Iii { .. } => Format::III,
            Instruction::IV { .. } => Format::IV,
            Instruction::V { .. } => Format::V,
            Instruction::VI { .. } => Format::VI,
        }
    }

    pub fn opname(&self) -> (r: &String)
        ensures
            r@ == opname_of(self@),
    {
        match self {
            Instruction::I { opname, .. } => opname,
            Instruction::II { opname, .. } => opname,
            Instruction::Iii { opname, .. } => opname,
            Instruction::IV { opname, .. } => opname,
            Instruction::V { opname, .. } => opname,
            Instruction::VI { opname, .. } => opname,
        }
    }

    fn fits(&self) -> (r: bool)
        ensures
            r == in_range(self@),
    {
        match self {
            Instruction::I { ts, tsd, .. } => operand_fits(ts) && operand_fits(tsd),
            Instruction::II { shift, tsd, .. } => *shift < 16 && operand_fits(tsd),
            Instruction::Iii { tsd, .. } => operand_fits(tsd),
            Instruction::IV { tsd, .. } => operand_fits(tsd),
            Instruction::V { tsd, .. } => operand_fits(tsd),
            Instruction::VI { .. } => true,
        }
    }

    fn opcode_word(&self, op: u16) -> (r: u16)
        requires
            in_range(self@),
            op < opcode_limit(format_of(self@)),
        ensures
            r == first_word(self@, op),
    {
        match self {
            Instruction::I { ts, tsd, .. } => pack_i(
                op,
                ts.mode_bits(),
                ts.get_register_value(),
                tsd.mode_bits(),
                tsd.get_register_value(),
            ),
            Instruction::II { shift, tsd, .. } => pack_ii(
                op,
                *shift as u16,
                tsd.mode_bits(),
                tsd.get_register_value(),
            ),
            Instruction::Iii { tsd, .. } => pack_iii(
                op,
                tsd.mode_bits(),
                tsd.get_register_value(),
            ),
            Instruction::IV { tsd, .. } => pack_unary(
                0b11100,
                op,
                tsd.mode_bits(),
                tsd.get_register_value(),
            ),
            Instruction::V { tsd, .. } => pack_unary(
                0b11101,
                op,
                tsd.mode_bits(),
                tsd.get_register_value(),
            ),
            Instruction::VI { displacement, .. } => {
                let disp: u16 = match displacement.resolve_relative() {
                    Some(v) => (v as u8) as u16,
                    None => 0,
                };
                pack_vi(op, disp)
            },
        }
    }

    /// Encodes the instruction into its words, looking labels up in
    /// `symtable`.
    pub fn to_binary(&self, symtable: &SymbolTable) -> (r: Result<Vec<u16>, EncodeError>)
        ensures
            match r {
                Ok(w) => spec_encode(self@, symtable@) == Ok::<Seq<u16>, EncodeErrorView>(w@),
                Err(e) => spec_encode(self@, symtable@) == Err::<Seq<u16>, EncodeErrorView>(e@),
            },
    {
        let op = match lookup_opcode(self.format(), self.opname()) {
            Some(op) => op,
            None => return Err(EncodeError::UnknownMnemonic(self.opname().clone())),
        };
        if !self.fits() {
            return Err(EncodeError::OutOfRange);
        }
        let mut result: Vec<u16> = Vec::new();
        result.push(self.opcode_word(op));
        let ghost first = result@;
        let src = match self {
            Instruction::I { ts, .. } => next_word(ts, symtable),
            _ => Ok(None),
        };
        let src = match src {
            Ok(w) => w,
            Err(e) => return Err(e),
        };
        let dst = match self {
            Instruction::VI { .. } => Ok(None),
            Instruction::I { tsd, .. } => next_word(tsd, symtable),
            Instruction::II { tsd, .. } => next_word(tsd, symtable),
            Instruction::Iii { tsd, .. } => next_word(tsd, symtable),
            Instruction::IV { tsd, .. } => next_word(tsd, symtable),
            Instruction::V { tsd, .. } => next_word(tsd, symtable),
        };
        let dst = match dst {
            Ok(w) => w,
            Err(e) => return Err(e),
        };
        if let Some(v) = src {
            result.push(v);
        }
        if let Instruction::Iii { immediate, .. } = self {
            result.push(*immediate);
        }
        if let Some(v) = dst {
            result.push(v);
        }
        proof {
            let s = source_words(self@, symtable@)->Ok_0;
            let d = destination_words(self@, symtable@)->Ok_0;
            assert(result@ =~= seq![first_word(self@, op)] + s + immediate_words(self@) + d);
        }
        Ok(result)
    }
}

} // verus!
