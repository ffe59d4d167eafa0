//! The two passes over source lines: label definitions first, into a symbol
//! table, then instructions, one per line.
use vstd::prelude::*;
use crate::error::{Grammar, ParseError};
use crate::instruction::{
    format_of, instruction_at, iv, opname_of, spec_instruction, v, vi, Instruction, InstructionView,
};
use crate::lexical::{char_is, has_tag};
use crate::opcode::{
    lemma_branch_mnemonics, lemma_first_chars, lemma_no_match, none_starts_with, opcode_table,
    operand_mnemonics, spec_mnemonic, spec_opcode, Format,
};
use crate::label::{self, label_at, spec_label, Label, LabelView};
use crate::lexical::{chars_of, class_end, scan_class, CharClass};
use crate::symbols::SymbolTable;

verus! {

/// A whole line holding one instruction, with spaces around it allowed.
pub open spec fn spec_line(s: Seq<char>) -> Option<InstructionView> {
    let q0 = class_end(s, 0, CharClass::Space);
    match spec_instruction(s, q0) {
        Some((x, q1)) => if class_end(s, q1, CharClass::Space) == s.len() {
            Some(x)
        } else {
            None
        },
        None => None,
    }
}

/// The symbol table that the label definitions among `lines` build, in
/// order; lines that define no label leave it as it is.
pub open spec fn spec_scan(lines: Seq<Seq<char>>) -> Map<Seq<char>, u16>
    decreases lines.len(),
{
    if lines.len() == 0 {
        Map::empty()
    } else {
        let m = spec_scan(lines.drop_last());
        match spec_label(lines.last(), 0) {
            Some((l, _)) => m.insert(l.name, l.address),
            None => m,
        }
    }
}

/// Whether `line` defines a label named `name`.
pub open spec fn defines(line: Seq<char>, name: Seq<char>) -> bool {
    spec_label(line, 0) matches Some((l, _)) && l.name == name
}

/// A label defined on several lines keeps the address of its last
/// definition: a later definition overwrites an earlier one.
pub proof fn lemma_last_definition_wins(lines: Seq<Seq<char>>, i: int, l: LabelView)
    requires
        0 <= i < lines.len(),
        spec_label(lines[i], 0) matches Some((x, _)) && x == l,
        forall|j: int| i < j < lines.len() ==> !defines(#[trigger] lines[j], l.name),
    ensures
        spec_scan(lines).contains_key(l.name),
        spec_scan(lines)[l.name] == l.address,
    decreases lines.len(),
{
    if i < lines.len() - 1 {
        let d = lines.drop_last();
        assert forall|j: int| i < j < d.len() implies !defines(#[trigger] d[j], l.name) by {
            assert(d[j] == lines[j]);
            assert(!defines(lines[j], l.name));
        }
        assert(d[i] == lines[i]);
        lemma_last_definition_wins(d, i, l);
        assert(!defines(lines[lines.len() - 1], l.name));
    }
}

/// A line that starts with a branch or jump mnemonic and a space is read by
/// that format alone, with that very mnemonic, even where a shorter mnemonic
/// of the format is a prefix of it (`BEQ` and `B`, `JNE` and `JN`). Whether it
/// parses then depends only on what follows, and its opcode is its own: no
/// other mnemonic of the format has it.
pub proof fn lemma_branch_line(f: Format, k: int, s: Seq<char>)
    requires
        f == Format::V || f == Format::VI,
        0 <= k < operand_mnemonics(f).len(),
        has_tag(s, 0, operand_mnemonics(f)[k].0),
        char_is(s, operand_mnemonics(f)[k].0.len() as int, ' '),
    ensures
        spec_mnemonic(f, s, 0) == Some(
            (operand_mnemonics(f)[k].0, operand_mnemonics(f)[k].0.len() as int),
        ),
        spec_instruction(s, 0) == (if f == Format::V {
            v::spec_parse(s, 0)
        } else {
            vi::spec_parse(s, 0)
        }),
        spec_line(s) matches Some(x) ==> format_of(x) == f && opname_of(x) == operand_mnemonics(
            f,
        )[k].0,
        spec_opcode(f, operand_mnemonics(f)[k].0) == Some(operand_mnemonics(f)[k].1),
        forall|j: int|
            0 <= j < operand_mnemonics(f).len() && j != k ==> (#[trigger] operand_mnemonics(
                f,
            )[j]).1 != operand_mnemonics(f)[k].1,
{
    lemma_branch_mnemonics(f, k, s, 0);
    lemma_first_chars();
    let m = operand_mnemonics(f)[k].0;
    assert(operand_mnemonics(f)[k] == opcode_table(f)[k]);
    assert(s.subrange(0, m.len() as int)[0] == s[0]);
    let c = s[0];
    assert(c == 'B' || c == 'J');
    lemma_no_match(operand_mnemonics(Format::I), s, 0, 0);
    lemma_no_match(operand_mnemonics(Format::II), s, 0, 0);
    lemma_no_match(operand_mnemonics(Format::III), s, 0, 0);
    let t4 = opcode_table(Format::IV);
    assert(none_starts_with(t4, c));
    assert forall|j: int| 0 <= j < t4.drop_last().len() implies (#[trigger] t4.drop_last()[j]).0.len()
        > 0 && t4.drop_last()[j].0[0] != c by {
        assert(t4.drop_last()[j] == t4[j]);
    }
    lemma_no_match(operand_mnemonics(Format::IV), s, 0, 0);
    assert(iv::roi()[0] == 'R');
    if has_tag(s, 0, iv::roi()) {
        assert(s.subrange(0, 3)[0] == s[0]);
    }
    if f == Format::VI {
        lemma_no_match(operand_mnemonics(Format::V), s, 0, 0);
    } else {
        lemma_no_match(operand_mnemonics(Format::VI), s, 0, 0);
    }
    assert(iv::spec_roi(s, 0) is None);
    assert(class_end(s, 0, CharClass::Space) == 0);
}

/// Parses a line that holds one instruction and nothing else but spaces.
pub fn parse_line(input: &str) -> (r: Result<Instruction, ParseError>)
    ensures
        match spec_line(input@) {
            Some(x) => r matches Ok(y) && y@ == x,
            None => r matches Err(e) && e.grammar == Grammar::Line && e.text@ == input@,
        },
{
    let s = chars_of(input);
    let q0 = scan_class(&s, 0, CharClass::Space);
    match instruction_at(&s, q0) {
        Some((x, q1)) => if scan_class(&s, q1, CharClass::Space) == s.len() {
            Ok(x)
        } else {
            Err(ParseError::new(Grammar::Line, input))
        },
        None => Err(ParseError::new(Grammar::Line, input)),
    }
}

/// Parses a label definition at the start of a line.
pub fn parse_label(input: &str) -> (r: Result<(&str, Label), ParseError>)
    ensures
        match spec_label(input@, 0) {
            Some((l, q)) => r matches Ok((rest, x)) && x@ == l && rest@ == input@.subrange(
                q,
                input@.len() as int,
            ),
            None => r matches Err(e) && e.grammar == Grammar::Label && e.text@ == input@,
        },
{
    label::parse_label(input)
}

/// Builds the symbol table from the label definitions among `lines`. A label
/// defined twice keeps its last address.
pub fn scan_labels(lines: &Vec<String>) -> (r: SymbolTable)
    ensures
        r@ == spec_scan(lines@.map_values(|l: String| l@)),
{
    let ghost all = lines@.map_values(|l: String| l@);
    let mut table = SymbolTable::new();
    let mut i: usize = 0;
    while i < lines.len()
        invariant
            i <= lines.len(),
            all == lines@.map_values(|l: String| l@),
            table@ == spec_scan(all.take(i as int)),
        decreases lines.len() - i,
    {
        let s = chars_of(lines[i].as_str());
        assert(all.take(i + 1).drop_last() =~= all.take(i as int));
        assert(all.take(i + 1).last() == s@);
        if let Some((l, _)) = label_at(&s, 0) {
            table.insert(l.name, l.address);
        }
        i = i + 1;
    }
    assert(all.take(lines.len() as int) =~= all);
    table
}

} // verus!
