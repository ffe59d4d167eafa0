//! The opcode table: each format's mnemonics, in the order the grammar tries
//! them, with their format-scoped opcodes.
use vstd::prelude::*;
use crate::lexical::{char_is, chars_of, has_tag, string_of, tag_at};

verus! {

/// The six instruction formats.
#[derive(Debug, Clone, Copy, PartialEq, Eq, Structural)]
pub enum Format {
    I,
    II,
    III,
    IV,
    V,
    VI,
}

/// Each format's mnemonics and opcodes. A mnemonic stands before any other
/// that it is a prefix of (`BEQ` before `B`, `LIMI` before `LI`), so that the
/// grammar, which takes the first that matches, reads the longer one whole.
/// Two pairs share an opcode: `ADD` and `MUL` in format I (`0b110`), and
/// `TST` and `SET` in format IV (`0b111`). Both are kept as the source table
/// of this instruction set gives them. The `ADD`/`MUL` pair looks like an
/// entry error in that table, since the other formats keep their codes
/// distinct; which codes are right is an open question, to be settled against
/// the target machine before the table is relied on. `TST` is the one
/// spelling of its mnemonic, in the grammar and in the table alike. `ROI`
/// stands last in format IV: it is the one mnemonic that takes no operand.
pub open spec fn opcode_table(f: Format) -> Seq<(Seq<char>, u16)> {
    match f {
        Format::I => seq![
            (seq!['O', 'R'], 0b000),
            (seq!['A', 'N', 'D'], 0b001),
            (seq!['X', 'O', 'R'], 0b010),
            (seq!['C', 'M', 'P'], 0b011),
            (seq!['A', 'D', 'D'], 0b110),
            (seq!['S', 'T', 'R'], 0b101),
            (seq!['M', 'U', 'L'], 0b110),
            (seq!['M', 'O', 'V'], 0b111),
        ],
        Format::II => seq![
            (seq!['S', 'L', 'L'], 0b000),
            (seq!['S', 'R', 'L'], 0b001),
            (seq!['S', 'L', 'A'], 0b010),
            (seq!['S', 'R', 'A'], 0b011),
            (seq!['R', 'O', 'T'], 0b100),
        ],
        Format::III => seq![
            (seq!['O', 'R', 'I'], 0b0000),
            (seq!['A', 'N', 'D', 'I'], 0b0001),
            (seq!['X', 'O', 'R', 'I'], 0b0010),
            (seq!['C', 'I'], 0b0011),
            (seq!['A', 'D', 'D', 'I'], 0b0100),
            (seq!['S', 'T', 'R', 'I'], 0b0101),
            (seq!['M', 'U', 'L', 'I'], 0b0110),
            (seq!['L', 'I', 'M', 'I'], 0b1001),
            (seq!['L', 'I'], 0b1000),
        ],
        Format::IV => seq![
            (seq!['N', 'O', 'T'], 0b000),
            (seq!['I', 'N', 'C'], 0b001),
            (seq!['D', 'E', 'C'], 0b010),
            (seq!['C', 'L', 'R'], 0b011),
            (seq!['P', 'U', 'S', 'H'], 0b100),
            (seq!['P', 'U', 'L', 'L'], 0b101),
            (seq!['T', 'S', 'T'], 0b111),
            (seq!['S', 'E', 'T'], 0b111),
            (seq!['R', 'O', 'I'], 0b110),
        ],
        Format::V => seq![
            (seq!['B', 'E', 'Q'], 0b001),
            (seq!['B', 'N', 'E'], 0b010),
            (seq!['B', 'N', 'C'], 0b100),
            (seq!['B', 'G', 'T'], 0b101),
            (seq!['B', 'L', 'T'], 0b110),
            (seq!['B', 'C'], 0b011),
            (seq!['B', 'N'], 0b111),
            (seq!['B'], 0b000),
        ],
        Format::VI => seq![
            (seq!['J', 'M', 'P'], 0b000),
            (seq!['J', 'E', 'Q'], 0b001),
            (seq!['J', 'N', 'E'], 0b010),
            (seq!['J', 'N', 'C'], 0b100),
            (seq!['J', 'G', 'T'], 0b101),
            (seq!['J', 'L', 'T'], 0b110),
            (seq!['J', 'C'], 0b011),
            (seq!['J', 'N'], 0b111),
        ],
    }
}

/// The mnemonics that take operands: all of a format's but `ROI`.
pub open spec fn operand_mnemonics(f: Format) -> Seq<(Seq<char>, u16)> {
    if f == Format::IV {
        opcode_table(f).drop_last()
    } else {
        opcode_table(f)
    }
}

/// The number of bits of a format's opcode field.
pub open spec fn opcode_limit(f: Format) -> u16 {
    if f == Format::III {
        16
    } else {
        8
    }
}

/// The code of the first entry from `i` on whose mnemonic is `name`.
pub open spec fn lookup_from(t: Seq<(Seq<char>, u16)>, name: Seq<char>, i: int) -> Option<u16>
    decreases t.len() - i,
{
    if i < 0 || i >= t.len() {
        None
    } else if t[i].0 == name {
        Some(t[i].1)
    } else {
        lookup_from(t, name, i + 1)
    }
}

/// The opcode of `name` in format `f`.
pub open spec fn spec_opcode(f: Format, name: Seq<char>) -> Option<u16> {
    lookup_from(opcode_table(f), name, 0)
}

/// The first entry from `i` on whose mnemonic stands at `p`: its index.
pub open spec fn match_from(t: Seq<(Seq<char>, u16)>, s: Seq<char>, p: int, i: int) -> Option<int>
    decreases t.len() - i,
{
    if i < 0 || i >= t.len() {
        None
    } else if has_tag(s, p, t[i].0) {
        Some(i)
    } else {
        match_from(t, s, p, i + 1)
    }
}

/// The first of the format's operand-taking mnemonics that stands at `p`,
/// and where it ends.
pub open spec fn spec_mnemonic(f: Format, s: Seq<char>, p: int) -> Option<(Seq<char>, int)> {
    match match_from(operand_mnemonics(f), s, p, 0) {
        Some(i) => Some((operand_mnemonics(f)[i].0, p + operand_mnemonics(f)[i].0.len())),
        None => None,
    }
}

/// A mnemonic `a` that the text `b`, followed by a space, does not start with.
pub open spec fn not_before(a: Seq<char>, b: Seq<char>) -> bool {
    exists|k: int| 0 <= k < a.len() && ((k == b.len() && a[k] != ' ') || (k < b.len() && a[k] != b[k]))
}

proof fn lemma_no_tag(s: Seq<char>, p: int, a: Seq<char>, b: Seq<char>)
    requires
        has_tag(s, p, b),
        char_is(s, p + b.len(), ' '),
        not_before(a, b),
    ensures
        !has_tag(s, p, a),
{
    let k = choose|k: int| 0 <= k < a.len() && ((k == b.len() && a[k] != ' ') || (k < b.len() && a[k] != b[k]));
    if has_tag(s, p, a) {
        assert(s.subrange(p, p + a.len())[k] == s[p + k]);
        if k < b.len() {
            assert(s.subrange(p, p + b.len())[k] == s[p + k]);
        }
    }
}

proof fn lemma_match_at(t: Seq<(Seq<char>, u16)>, s: Seq<char>, p: int, i: int, j: int)
    requires
        0 <= j <= i < t.len(),
        has_tag(s, p, t[i].0),
        char_is(s, p + t[i].0.len(), ' '),
        forall|m: int| j <= m < i ==> not_before(#[trigger] t[m].0, t[i].0),
    ensures
        match_from(t, s, p, j) == Some(i),
    decreases i - j,
{
    if j < i {
        lemma_no_tag(s, p, t[j].0, t[i].0);
        lemma_match_at(t, s, p, i, j + 1);
    }
}

proof fn lemma_lookup_at(t: Seq<(Seq<char>, u16)>, i: int, j: int)
    requires
        0 <= j <= i < t.len(),
        forall|m: int| j <= m < i ==> (#[trigger] t[m].0) != t[i].0,
    ensures
        lookup_from(t, t[i].0, j) == Some(t[i].1),
    decreases i - j,
{
    if j < i {
        lemma_lookup_at(t, i, j + 1);
    }
}

/// Whether every mnemonic of `t` stands before the later ones only where it
/// cannot be read at their start, and has a text of its own.
pub open spec fn well_ordered(t: Seq<(Seq<char>, u16)>) -> bool {
    forall|i: int, j: int|
        0 <= j < i < t.len() ==> not_before(#[trigger] t[j].0, #[trigger] t[i].0) && t[j].0
            != t[i].0
}

/// Whether the opcodes of `t` are pairwise distinct.
pub open spec fn distinct_codes(t: Seq<(Seq<char>, u16)>) -> bool {
    forall|i: int, j: int| 0 <= i < t.len() && 0 <= j < t.len() && i != j ==> #[trigger] t[i].1
        != #[trigger] t[j].1
}

/// A mnemonic of a well-ordered table, written before a space, reads as
/// itself, never as an earlier, shorter one that it extends, and its opcode
/// is its own entry's.
pub proof fn lemma_mnemonic_reads_whole(f: Format, i: int, s: Seq<char>, p: int)
    requires
        well_ordered(operand_mnemonics(f)),
        0 <= i < operand_mnemonics(f).len(),
        has_tag(s, p, operand_mnemonics(f)[i].0),
        char_is(s, p + operand_mnemonics(f)[i].0.len(), ' '),
    ensures
        spec_mnemonic(f, s, p) == Some(
            (operand_mnemonics(f)[i].0, p + operand_mnemonics(f)[i].0.len()),
        ),
        spec_opcode(f, operand_mnemonics(f)[i].0) == Some(operand_mnemonics(f)[i].1),
{
    let t = operand_mnemonics(f);
    assert forall|m: int| 0 <= m < i implies not_before(#[trigger] t[m].0, t[i].0) by {
        assert(not_before(t[m].0, t[i].0) && t[m].0 != t[i].0);
    }
    lemma_match_at(t, s, p, i, 0);
    let o = opcode_table(f);
    assert(o[i] == t[i]);
    assert forall|m: int| 0 <= m < i implies (#[trigger] o[m].0) != o[i].0 by {
        assert(o[m] == t[m]);
        assert(not_before(t[m].0, t[i].0) && t[m].0 != t[i].0);
    }
    lemma_lookup_at(o, i, 0);
}

proof fn lemma_table_i()
    ensures
        well_ordered(operand_mnemonics(Format::I)),
{
    let t = operand_mnemonics(Format::I);
    assert(t[0].0 =~= seq!['O', 'R']);
    assert(t[1].0 =~= seq!['A', 'N', 'D']);
    assert(t[2].0 =~= seq!['X', 'O', 'R']);
    assert(t[3].0 =~= seq!['C', 'M', 'P']);
    assert(t[4].0 =~= seq!['A', 'D', 'D']);
    assert(t[5].0 =~= seq!['S', 'T', 'R']);
    assert(t[6].0 =~= seq!['M', 'U', 'L']);
    assert(t[7].0 =~= seq!['M', 'O', 'V']);
    assert forall|i: int, j: int| 0 <= j < i < t.len() implies not_before(
        #[trigger] t[j].0,
        #[trigger] t[i].0,
    ) && t[j].0 != t[i].0 by {
        assert(t[j].0[0] != t[i].0[0] || t[j].0[1] != t[i].0[1] || t[j].0[2] != t[i].0[2]
            || t[j].0[3] != t[i].0[3] || t[j].0.len() > t[i].0.len());
    }
}

proof fn lemma_table_ii()
    ensures
        well_ordered(operand_mnemonics(Format::II)),
{
    let t = operand_mnemonics(Format::II);
    assert(t[0].0 =~= seq!['S', 'L', 'L']);
    assert(t[1].0 =~= seq!['S', 'R', 'L']);
    assert(t[2].0 =~= seq!['S', 'L', 'A']);
    assert(t[3].0 =~= seq!['S', 'R', 'A']);
    assert(t[4].0 =~= seq!['R', 'O', 'T']);
    assert forall|i: int, j: int| 0 <= j < i < t.len() implies not_before(
        #[trigger] t[j].0,
        #[trigger] t[i].0,
    ) && t[j].0 != t[i].0 by {
        assert(t[j].0[0] != t[i].0[0] || t[j].0[1] != t[i].0[1] || t[j].0[2] != t[i].0[2]
            || t[j].0[3] != t[i].0[3] || t[j].0.len() > t[i].0.len());
    }
}

proof fn lemma_table_iii()
    ensures
        well_ordered(operand_mnemonics(Format::III)),
{
    let t = operand_mnemonics(Format::III);
    assert(t[0].0 =~= seq!['O', 'R', 'I']);
    assert(t[1].0 =~= seq!['A', 'N', 'D', 'I']);
    assert(t[2].0 =~= seq!['X', 'O', 'R', 'I']);
    assert(t[3].0 =~= seq!['C', 'I']);
    assert(t[4].0 =~= seq!['A', 'D', 'D', 'I']);
    assert(t[5].0 =~= seq!['S', 'T', 'R', 'I']);
    assert(t[6].0 =~= seq!['M', 'U', 'L', 'I']);
    assert(t[7].0 =~= seq!['L', 'I', 'M', 'I']);
    assert(t[8].0 =~= seq!['L', 'I']);
    assert forall|i: int, j: int| 0 <= j < i < t.len() implies not_before(
        #[trigger] t[j].0,
        #[trigger] t[i].0,
    ) && t[j].0 != t[i].0 by {
        assert(t[j].0[0] != t[i].0[0] || t[j].0[1] != t[i].0[1] || t[j].0[2] != t[i].0[2]
            || t[j].0[3] != t[i].0[3] || t[j].0.len() > t[i].0.len());
    }
}

proof fn lemma_table_iv()
    ensures
        well_ordered(operand_mnemonics(Format::IV)),
{
    let t = operand_mnemonics(Format::IV);
    assert(t =~= opcode_table(Format::IV).take(8));
    assert(t[0].0 =~= seq!['N', 'O', 'T']);
    assert(t[1].0 =~= seq!['I', 'N', 'C']);
    assert(t[2].0 =~= seq!['D', 'E', 'C']);
    assert(t[3].0 =~= seq!['C', 'L', 'R']);
    assert(t[4].0 =~= seq!['P', 'U', 'S', 'H']);
    assert(t[5].0 =~= seq!['P', 'U', 'L', 'L']);
    assert(t[6].0 =~= seq!['T', 'S', 'T']);
    assert(t[7].0 =~= seq!['S', 'E', 'T']);
    assert forall|i: int, j: int| 0 <= j < i < t.len() implies not_before(
        #[trigger] t[j].0,
        #[trigger] t[i].0,
    ) && t[j].0 != t[i].0 by {
        assert(t[j].0[0] != t[i].0[0] || t[j].0[1] != t[i].0[1] || t[j].0[2] != t[i].0[2]
            || t[j].0[3] != t[i].0[3] || t[j].0.len() > t[i].0.len());
    }
}

proof fn lemma_table_v()
    ensures
        well_ordered(operand_mnemonics(Format::V)),
{
    let t = operand_mnemonics(Format::V);
    assert(t[0].0 =~= seq!['B', 'E', 'Q']);
    assert(t[1].0 =~= seq!['B', 'N', 'E']);
    assert(t[2].0 =~= seq!['B', 'N', 'C']);
    assert(t[3].0 =~= seq!['B', 'G', 'T']);
    assert(t[4].0 =~= seq!['B', 'L', 'T']);
    assert(t[5].0 =~= seq!['B', 'C']);
    assert(t[6].0 =~= seq!['B', 'N']);
    assert(t[7].0 =~= seq!['B']);
    assert forall|i: int, j: int| 0 <= j < i < t.len() implies not_before(
        #[trigger] t[j].0,
        #[trigger] t[i].0,
    ) && t[j].0 != t[i].0 by {
        assert(t[j].0[0] != t[i].0[0] || t[j].0[1] != t[i].0[1] || t[j].0[2] != t[i].0[2]
            || t[j].0[3] != t[i].0[3] || t[j].0.len() > t[i].0.len());
    }
}

proof fn lemma_table_vi()
    ensures
        well_ordered(operand_mnemonics(Format::VI)),
{
    let t = operand_mnemonics(Format::VI);
    assert(t[0].0 =~= seq!['J', 'M', 'P']);
    assert(t[1].0 =~= seq!['J', 'E', 'Q']);
    assert(t[2].0 =~= seq!['J', 'N', 'E']);
    assert(t[3].0 =~= seq!['J', 'N', 'C']);
    assert(t[4].0 =~= seq!['J', 'G', 'T']);
    assert(t[5].0 =~= seq!['J', 'L', 'T']);
    assert(t[6].0 =~= seq!['J', 'C']);
    assert(t[7].0 =~= seq!['J', 'N']);
    assert forall|i: int, j: int| 0 <= j < i < t.len() implies not_before(
        #[trigger] t[j].0,
        #[trigger] t[i].0,
    ) && t[j].0 != t[i].0 by {
        assert(t[j].0[0] != t[i].0[0] || t[j].0[1] != t[i].0[1] || t[j].0[2] != t[i].0[2]
            || t[j].0[3] != t[i].0[3] || t[j].0.len() > t[i].0.len());
    }
}

/// Every format's mnemonics are ordered so that none is read at the start of
/// a later one that it is a prefix of.
pub proof fn lemma_tables_well_ordered(f: Format)
    ensures
        well_ordered(operand_mnemonics(f)),
{
    match f {
        Format::I => lemma_table_i(),
        Format::II => lemma_table_ii(),
        Format::III => lemma_table_iii(),
        Format::IV => lemma_table_iv(),
        Format::V => lemma_table_v(),
        Format::VI => lemma_table_vi(),
    }
}

proof fn lemma_branch_codes()
    ensures
        distinct_codes(operand_mnemonics(Format::V)),
        distinct_codes(operand_mnemonics(Format::VI)),
{
}

/// A branch or jump mnemonic, written before a space, reads as itself, even
/// where it extends a shorter one (`BEQ` and `B`, `JNE` and `JN`), and its
/// opcode is its own: no other mnemonic of the format has it.
pub proof fn lemma_branch_mnemonics(f: Format, i: int, s: Seq<char>, p: int)
    requires
        f == Format::V || f == Format::VI,
        0 <= i < operand_mnemonics(f).len(),
        has_tag(s, p, operand_mnemonics(f)[i].0),
        char_is(s, p + operand_mnemonics(f)[i].0.len(), ' '),
    ensures
        spec_mnemonic(f, s, p) == Some(
            (operand_mnemonics(f)[i].0, p + operand_mnemonics(f)[i].0.len()),
        ),
        spec_opcode(f, operand_mnemonics(f)[i].0) == Some(operand_mnemonics(f)[i].1),
        forall|j: int|
            0 <= j < operand_mnemonics(f).len() && j != i ==> (#[trigger] operand_mnemonics(
                f,
            )[j]).1 != operand_mnemonics(f)[i].1,
{
    lemma_tables_well_ordered(f);
    lemma_branch_codes();
    lemma_mnemonic_reads_whole(f, i, s, p);
}

/// Whether every mnemonic of `t` is non-empty and starts with a character
/// other than `c`.
pub open spec fn none_starts_with(t: Seq<(Seq<char>, u16)>, c: char) -> bool {
    forall|j: int| 0 <= j < t.len() ==> (#[trigger] t[j]).0.len() > 0 && t[j].0[0] != c
}

/// Whether every mnemonic of `t` is non-empty and starts with `c`.
pub open spec fn all_start_with(t: Seq<(Seq<char>, u16)>, c: char) -> bool {
    forall|j: int| 0 <= j < t.len() ==> (#[trigger] t[j]).0.len() > 0 && t[j].0[0] == c
}

/// No mnemonic of a table whose first characters all differ from the one at
/// `p` stands there.
pub proof fn lemma_no_match(t: Seq<(Seq<char>, u16)>, s: Seq<char>, p: int, j: int)
    requires
        0 <= p < s.len(),
        0 <= j,
        none_starts_with(t, s[p]),
    ensures
        match_from(t, s, p, j) is None,
    decreases t.len() - j,
{
    if j < t.len() {
        if has_tag(s, p, t[j].0) {
            assert(s.subrange(p, p + t[j].0.len())[0] == s[p]);
        }
        lemma_no_match(t, s, p, j + 1);
    }
}

/// The first characters of the tables: the branch mnemonics all start with
/// `B`, the jump mnemonics with `J`, and no other mnemonic with either.
pub proof fn lemma_first_chars()
    ensures
        none_starts_with(opcode_table(Format::I), 'B'),
        none_starts_with(opcode_table(Format::I), 'J'),
        none_starts_with(opcode_table(Format::II), 'B'),
        none_starts_with(opcode_table(Format::II), 'J'),
        none_starts_with(opcode_table(Format::III), 'B'),
        none_starts_with(opcode_table(Format::III), 'J'),
        none_starts_with(opcode_table(Format::IV), 'B'),
        none_starts_with(opcode_table(Format::IV), 'J'),
        none_starts_with(opcode_table(Format::V), 'J'),
        none_starts_with(opcode_table(Format::VI), 'B'),
        all_start_with(opcode_table(Format::V), 'B'),
        all_start_with(opcode_table(Format::VI), 'J'),
{
    let t = opcode_table(Format::I);
    assert(t[0].0 =~= seq!['O', 'R']);
    assert(t[1].0 =~= seq!['A', 'N', 'D']);
    assert(t[2].0 =~= seq!['X', 'O', 'R']);
    assert(t[3].0 =~= seq!['C', 'M', 'P']);
    assert(t[4].0 =~= seq!['A', 'D', 'D']);
    assert(t[5].0 =~= seq!['S', 'T', 'R']);
    assert(t[6].0 =~= seq!['M', 'U', 'L']);
    assert(t[7].0 =~= seq!['M', 'O', 'V']);
    let t = opcode_table(Format::II);
    assert(t[0].0 =~= seq!['S', 'L', 'L']);
    assert(t[1].0 =~= seq!['S', 'R', 'L']);
    assert(t[2].0 =~= seq!['S', 'L', 'A']);
    assert(t[3].0 =~= seq!['S', 'R', 'A']);
    assert(t[4].0 =~= seq!['R', 'O', 'T']);
    let t = opcode_table(Format::III);
    assert(t[0].0 =~= seq!['O', 'R', 'I']);
    assert(t[1].0 =~= seq!['A', 'N', 'D', 'I']);
    assert(t[2].0 =~= seq!['X', 'O', 'R', 'I']);
    assert(t[3].0 =~= seq!['C', 'I']);
    assert(t[4].0 =~= seq!['A', 'D', 'D', 'I']);
    assert(t[5].0 =~= seq!['S', 'T', 'R', 'I']);
    assert(t[6].0 =~= seq!['M', 'U', 'L', 'I']);
    assert(t[7].0 =~= seq!['L', 'I', 'M', 'I']);
    assert(t[8].0 =~= seq!['L', 'I']);
    let t = opcode_table(Format::IV);
    assert(t[0].0 =~= seq!['N', 'O', 'T']);
    assert(t[1].0 =~= seq!['I', 'N', 'C']);
    assert(t[2].0 =~= seq!['D', 'E', 'C']);
    assert(t[3].0 =~= seq!['C', 'L', 'R']);
    assert(t[4].0 =~= seq!['P', 'U', 'S', 'H']);
    assert(t[5].0 =~= seq!['P', 'U', 'L', 'L']);
    assert(t[6].0 =~= seq!['T', 'S', 'T']);
    assert(t[7].0 =~= seq!['S', 'E', 'T']);
    assert(t[8].0 =~= seq!['R', 'O', 'I']);
    let t = opcode_table(Format::V);
    assert(t[0].0 =~= seq!['B', 'E', 'Q']);
    assert(t[1].0 =~= seq!['B', 'N', 'E']);
    assert(t[2].0 =~= seq!['B', 'N', 'C']);
    assert(t[3].0 =~= seq!['B', 'G', 'T']);
    assert(t[4].0 =~= seq!['B', 'L', 'T']);
    assert(t[5].0 =~= seq!['B', 'C']);
    assert(t[6].0 =~= seq!['B', 'N']);
    assert(t[7].0 =~= seq!['B']);
    let t = opcode_table(Format::VI);
    assert(t[0].0 =~= seq!['J', 'M', 'P']);
    assert(t[1].0 =~= seq!['J', 'E', 'Q']);
    assert(t[2].0 =~= seq!['J', 'N', 'E']);
    assert(t[3].0 =~= seq!['J', 'N', 'C']);
    assert(t[4].0 =~= seq!['J', 'G', 'T']);
    assert(t[5].0 =~= seq!['J', 'L', 'T']);
    assert(t[6].0 =~= seq!['J', 'C']);
    assert(t[7].0 =~= seq!['J', 'N']);
}

pub fn table_len(f: Format) -> (r: usize)
    ensures
        r == opcode_table(f).len(),
{
    match f {
        Format::I => 8,
        Format::II => 5,
        Format::III => 9,
        Format::IV => 9,
        Format::V => 8,
        Format::VI => 8,
    }
}

pub fn operand_mnemonic_count(f: Format) -> (r: usize)
    ensures
        r == operand_mnemonics(f).len(),
{
    let n = table_len(f);
    if f == Format::IV {
        n - 1
    } else {
        n
    }
}

/// The entry at index `i` of format `f`'s table.
pub fn opcode_entry(f: Format, i: usize) -> (r: (Vec<char>, u16))
    requires
        i < opcode_table(f).len(),
    ensures
        r.0@ == opcode_table(f)[i as int].0,
        r.1 == opcode_table(f)[i as int].1,
        r.1 < opcode_limit(f),
{
    match (f, i) {
        (Format::I, 0) => (vec!['O', 'R'], 0b000),
        (Format::I, 1) => (vec!['A', 'N', 'D'], 0b001),
        (Format::I, 2) => (vec!['X', 'O', 'R'], 0b010),
        (Format::I, 3) => (vec!['C', 'M', 'P'], 0b011),
        (Format::I, 4) => (vec!['A', 'D', 'D'], 0b110),
        (Format::I, 5) => (vec!['S', 'T', 'R'], 0b101),
        (Format::I, 6) => (vec!['M', 'U', 'L'], 0b110),
        (Format::I, 7) => (vec!['M', 'O', 'V'], 0b111),
        (Format::II, 0) => (vec!['S', 'L', 'L'], 0b000),
        (Format::II, 1) => (vec!['S', 'R', 'L'], 0b001),
        (Format::II, 2) => (vec!['S', 'L', 'A'], 0b010),
        (Format::II, 3) => (vec!['S', 'R', 'A'], 0b011),
        (Format::II, 4) => (vec!['R', 'O', 'T'], 0b100),
        (Format::III, 0) => (vec!['O', 'R', 'I'], 0b0000),
        (Format::III, 1) => (vec!['A', 'N', 'D', 'I'], 0b0001),
        (Format::III, 2) => (vec!['X', 'O', 'R', 'I'], 0b0010),
        (Format::III, 3) => (vec!['C', 'I'], 0b0011),
        (Format::III, 4) => (vec!['A', 'D', 'D', 'I'], 0b0100),
        (Format::III, 5) => (vec!['S', 'T', 'R', 'I'], 0b0101),
        (Format::III, 6) => (vec!['M', 'U', 'L', 'I'], 0b0110),
        (Format::III, 7) => (vec!['L', 'I', 'M', 'I'], 0b1001),
        (Format::III, 8) => (vec!['L', 'I'], 0b1000),
        (Format::IV, 0) => (vec!['N', 'O', 'T'], 0b000),
        (Format::IV, 1) => (vec!['I', 'N', 'C'], 0b001),
        (Format::IV, 2) => (vec!['D', 'E', 'C'], 0b010),
        (Format::IV, 3) => (vec!['C', 'L', 'R'], 0b011),
        (Format::IV, 4) => (vec!['P', 'U', 'S', 'H'], 0b100),
        (Format::IV, 5) => (vec!['P', 'U', 'L', 'L'], 0b101),
        (Format::IV, 6) => (vec!['T', 'S', 'T'], 0b111),
        (Format::IV, 7) => (vec!['S', 'E', 'T'], 0b111),
        (Format::IV, 8) => (vec!['R', 'O', 'I'], 0b110),
        (Format::V, 0) => (vec!['B', 'E', 'Q'], 0b001),
        (Format::V, 1) => (vec!['B', 'N', 'E'], 0b010),
        (Format::V, 2) => (vec!['B', 'N', 'C'], 0b100),
        (Format::V, 3) => (vec!['B', 'G', 'T'], 0b101),
        (Format::V, 4) => (vec!['B', 'L', 'T'], 0b110),
        (Format::V, 5) => (vec!['B', 'C'], 0b011),
        (Format::V, 6) => (vec!['B', 'N'], 0b111),
        (Format::V, 7) => (vec!['B'], 0b000),
        (Format::VI, 0) => (vec!['J', 'M', 'P'], 0b000),
        (Format::VI, 1) => (vec!['J', 'E', 'Q'], 0b001),
        (Format::VI, 2) => (vec!['J', 'N', 'E'], 0b010),
        (Format::VI, 3) => (vec!['J', 'N', 'C'], 0b100),
        (Format::VI, 4) => (vec!['J', 'G', 'T'], 0b101),
        (Format::VI, 5) => (vec!['J', 'L', 'T'], 0b110),
        (Format::VI, 6) => (vec!['J', 'C'], 0b011),
        (Format::VI, 7) => (vec!['J', 'N'], 0b111),
        _ => {
            assert(false);
            (Vec::new(), 0)
        },
    }
}

/// The opcode of `name` in format `f`, if the format has that mnemonic.
pub fn lookup_opcode(f: Format, name: &String) -> (r: Option<u16>)
    ensures
        r == spec_opcode(f, name@),
        r matches Some(c) ==> c < opcode_limit(f),
{
    let s = chars_of(name.as_str());
    let n = table_len(f);
    let mut i: usize = 0;
    while i < n
        invariant
            n == opcode_table(f).len(),
            s@ == name@,
            i <= n,
            spec_opcode(f, name@) == lookup_from(opcode_table(f), name@, i as int),
        decreases n - i,
    {
        let (t, c) = opcode_entry(f, i);
        assert(s@.subrange(0, s@.len() as int) =~= s@);
        if t.len() == s.len() && tag_at(&s, 0, &t) {
            return Some(c);
        }
        i = i + 1;
    }
    None
}

/// The first of the format's operand-taking mnemonics that stands at `p`, and
/// where it ends.
pub fn mnemonic_at(f: Format, s: &Vec<char>, p: usize) -> (r: Option<(String, usize)>)
    requires
        p <= s.len(),
    ensures
        match r {
            None => spec_mnemonic(f, s@, p as int) is None,
            Some((m, q)) => spec_mnemonic(f, s@, p as int) == Some((m@, q as int)) && q <= s.len(),
        },
{
    let n = operand_mnemonic_count(f);
    let mut i: usize = 0;
    while i < n
        invariant
            n == operand_mnemonics(f).len(),
            n <= opcode_table(f).len(),
            p <= s.len(),
            i <= n,
            match_from(operand_mnemonics(f), s@, p as int, 0) == match_from(
                operand_mnemonics(f),
                s@,
                p as int,
                i as int,
            ),
        decreases n - i,
    {
        let (t, _c) = opcode_entry(f, i);
        assert(operand_mnemonics(f)[i as int] == opcode_table(f)[i as int]);
        if tag_at(s, p, &t) {
            let q = p + t.len();
            let m = string_of(s, p, q);
            return Some((m, q));
        }
        i = i + 1;
    }
    None
}

} // verus!
