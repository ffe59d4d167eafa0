//! Addresses: absolute (a literal or a label) and relative (an offset or a
//! label), with their text and their resolution against a symbol table.
use vstd::prelude::*;
use crate::error::{Grammar, ParseError};
use crate::hexadecimal::{has_hex_prefix, hex_at, hex_prefix_at, spec_hex};
use crate::lexical::{
    char_at, char_is, chars_of, class_end, in_class, in_class_exec, lemma_pow16_monotonic, pow16,
    rest_of, scan_class, string_of, CharClass,
};
use crate::symbols::SymbolTable;

verus! {

/// An address operand.
#[derive(Debug)]
pub enum Address {
    /// A literal absolute address.
    Raw(u16),
    /// A label, resolved against the symbol table.
    Symbolic(String),
    /// A label used as a branch target; its offset is not computed.
    RelativeSymbolic(String),
    /// A literal signed offset.
    Relative(i8),
}

/// An address as a plain value.
pub enum AddressView {
    Raw(u16),
    Symbolic(Seq<char>),
    RelativeSymbolic(Seq<char>),
    Relative(i8),
}

impl View for Address {
    type V = AddressView;

    open spec fn view(&self) -> AddressView {
        match self {
            Address::Raw(v) => AddressView::Raw(*v),
            Address::Symbolic(n) => AddressView::Symbolic(n@),
            Address::RelativeSymbolic(n) => AddressView::RelativeSymbolic(n@),
            Address::Relative(v) => AddressView::Relative(*v),
        }
    }
}

impl PartialEq for Address {
    fn eq(&self, o: &Address) -> (r: bool) {
        match (self, o) {
            (Address::Raw(a), Address::Raw(b)) => *a == *b,
            (Address::Symbolic(a), Address::Symbolic(b)) => *a == *b,
            (Address::RelativeSymbolic(a), Address::RelativeSymbolic(b)) => *a == *b,
            (Address::Relative(a), Address::Relative(b)) => *a == *b,
            _ => false,
        }
    }
}

impl vstd::std_specs::cmp::PartialEqSpecImpl for Address {
    open spec fn obeys_eq_spec() -> bool {
        true
    }

    open spec fn eq_spec(&self, o: &Address) -> bool {
        self@ == o@
    }
}

/// The absolute address that `a` stands for: a literal, or a label that the
/// table defines. Relative addresses have none.
pub open spec fn spec_resolve(a: AddressView, st: Map<Seq<char>, u16>) -> Option<u16> {
    match a {
        AddressView::Raw(v) => Some(v),
        AddressView::Symbolic(n) => if st.contains_key(n) {
            Some(st[n])
        } else {
            None
        },
        _ => None,
    }
}

/// The offset that `a` stands for: only a literal offset has one.
pub open spec fn spec_resolve_relative(a: AddressView) -> Option<i8> {
    match a {
        AddressView::Relative(v) => Some(v),
        _ => None,
    }
}

impl Address {
    /// The absolute address, looking labels up in `symbols`.
    pub fn resolve(&self, symbols: &SymbolTable) -> (r: Option<u16>)
        ensures
            r == spec_resolve(self@, symbols@),
    {
        match self {
            Address::Raw(value) => Some(*value),
            Address::Relative(_) => None,
            Address::Symbolic(name) => symbols.get(name),
            Address::RelativeSymbolic(_) => None,
        }
    }

    /// The relative offset, if this is a literal one.
    pub fn resolve_relative(&self) -> (r: Option<i8>)
        ensures
            r == spec_resolve_relative(self@),
    {
        match self {
            Address::Relative(value) => Some(*value),
            _ => None,
        }
    }
}

/// One to four hexadecimal digits, as many as stand there.
pub open spec fn spec_hex_primary(s: Seq<char>, p: int) -> Option<(u16, int)> {
    match spec_hex(s, p, 4) {
        Some((v, q)) => Some((v as u16, q)),
        None => None,
    }
}

/// `0x` and a 16-bit hexadecimal value.
pub open spec fn spec_raw_address_value(s: Seq<char>, p: int) -> Option<(u16, int)> {
    if has_hex_prefix(s, p) {
        spec_hex_primary(s, p + 2)
    } else {
        None
    }
}

pub open spec fn spec_raw_address(s: Seq<char>, p: int) -> Option<(AddressView, int)> {
    match spec_raw_address_value(s, p) {
        Some((v, q)) => Some((AddressView::Raw(v), q)),
        None => None,
    }
}

/// `@` and a run, possibly empty, of letters and numbers.
pub open spec fn spec_symbolic_address(s: Seq<char>, p: int) -> Option<(AddressView, int)> {
    if char_is(s, p, '@') {
        let q = class_end(s, p + 1, CharClass::Alphanumeric);
        Some((AddressView::Symbolic(s.subrange(p + 1, q)), q))
    } else {
        None
    }
}

/// A raw address, else a symbolic one.
pub open spec fn spec_address(s: Seq<char>, p: int) -> Option<(AddressView, int)> {
    match spec_raw_address(s, p) {
        Some(r) => Some(r),
        None => spec_symbolic_address(s, p),
    }
}

/// Whether `c` may stand in a label name of an address.
pub fn sym_address_char(c: char) -> (r: bool)
    ensures
        r == in_class(CharClass::Alphanumeric, c),
{
    in_class_exec(CharClass::Alphanumeric, c)
}

pub fn hex_primary_at(s: &Vec<char>, p: usize) -> (r: Option<(u16, usize)>)
    requires
        p <= s.len(),
    ensures
        match r {
            None => spec_hex_primary(s@, p as int) is None,
            Some((v, q)) => spec_hex_primary(s@, p as int) == Some((v, q as int)) && q <= s.len(),
        },
{
    match hex_at(s, p, 4) {
        Some((v, q)) => {
            proof {
                lemma_pow16_monotonic((q - p) as nat, 4);
                reveal_with_fuel(pow16, 5);
            }
            Some((v as u16, q))
        },
        None => None,
    }
}

pub fn raw_address_value_at(s: &Vec<char>, p: usize) -> (r: Option<(u16, usize)>)
    requires
        p <= s.len(),
    ensures
        match r {
            None => spec_raw_address_value(s@, p as int) is None,
            Some((v, q)) => spec_raw_address_value(s@, p as int) == Some((v, q as int)) && q
                <= s.len(),
        },
{
    if hex_prefix_at(s, p) {
        hex_primary_at(s, p + 2)
    } else {
        None
    }
}

pub fn raw_address_at(s: &Vec<char>, p: usize) -> (r: Option<(Address, usize)>)
    requires
        p <= s.len(),
    ensures
        match r {
            None => spec_raw_address(s@, p as int) is None,
            Some((a, q)) => spec_raw_address(s@, p as int) == Some((a@, q as int)) && q <= s.len(),
        },
{
    match raw_address_value_at(s, p) {
        Some((v, q)) => Some((Address::Raw(v), q)),
        None => None,
    }
}

pub fn symbolic_address_at(s: &Vec<char>, p: usize) -> (r: Option<(Address, usize)>)
    requires
        p <= s.len(),
    ensures
        match r {
            None => spec_symbolic_address(s@, p as int) is None,
            Some((a, q)) => spec_symbolic_address(s@, p as int) == Some((a@, q as int)) && q
                <= s.len(),
        },
{
    if !char_at(s, p, '@') {
        return None;
    }
    let q = scan_class(s, p + 1, CharClass::Alphanumeric);
    Some((Address::Symbolic(string_of(s, p + 1, q)), q))
}

pub fn address_at(s: &Vec<char>, p: usize) -> (r: Option<(Address, usize)>)
    requires
        p <= s.len(),
    ensures
        match r {
            None => spec_address(s@, p as int) is None,
            Some((a, q)) => spec_address(s@, p as int) == Some((a@, q as int)) && q <= s.len(),
        },
{
    match raw_address_at(s, p) {
        Some(r) => Some(r),
        None => symbolic_address_at(s, p),
    }
}

/// Parses an absolute address: `0x` and hexadecimal digits, or `@` and a
/// label name.
pub fn parse_address(input: &str) -> (r: Result<(&str, Address), ParseError>)
    ensures
        match spec_address(input@, 0) {
            Some((a, q)) => r matches Ok((rest, b)) && b@ == a && rest@ == input@.subrange(
                q,
                input@.len() as int,
            ),
            None => r matches Err(e) && e.grammar == Grammar::Address && e.text@ == input@,
        },
{
    let s = chars_of(input);
    match address_at(&s, 0) {
        Some((a, q)) => Ok((rest_of(input, q), a)),
        None => Err(ParseError::new(Grammar::Address, input)),
    }
}

/// Parses `@` and a label name.
pub fn parse_symbolic_address(input: &str) -> (r: Result<(&str, Address), ParseError>)
    ensures
        match spec_symbolic_address(input@, 0) {
            Some((a, q)) => r matches Ok((rest, b)) && b@ == a && rest@ == input@.subrange(
                q,
                input@.len() as int,
            ),
            None => r matches Err(e) && e.grammar == Grammar::Address && e.text@ == input@,
        },
{
    let s = chars_of(input);
    match symbolic_address_at(&s, 0) {
        Some((a, q)) => Ok((rest_of(input, q), a)),
        None => Err(ParseError::new(Grammar::Address, input)),
    }
}

/// Parses `0x` and a 16-bit hexadecimal value as a raw address.
pub fn parse_raw_address(input: &str) -> (r: Result<(&str, Address), ParseError>)
    ensures
        match spec_raw_address(input@, 0) {
            Some((a, q)) => r matches Ok((rest, b)) && b@ == a && rest@ == input@.subrange(
                q,
                input@.len() as int,
            ),
            None => r matches Err(e) && e.grammar == Grammar::Address && e.text@ == input@,
        },
{
    let s = chars_of(input);
    match raw_address_at(&s, 0) {
        Some((a, q)) => Ok((rest_of(input, q), a)),
        None => Err(ParseError::new(Grammar::Address, input)),
    }
}

/// Parses `0x` and a 16-bit hexadecimal value.
pub fn parse_raw_address_value(input: &str) -> (r: Result<(&str, u16), ParseError>)
    ensures
        match spec_raw_address_value(input@, 0) {
            Some((v, q)) => r matches Ok((rest, w)) && w == v && rest@ == input@.subrange(
                q,
                input@.len() as int,
            ),
            None => r matches Err(e) && e.grammar == Grammar::Address && e.text@ == input@,
        },
{
    let s = chars_of(input);
    match raw_address_value_at(&s, 0) {
        Some((v, q)) => Ok((rest_of(input, q), v)),
        None => Err(ParseError::new(Grammar::Address, input)),
    }
}

} // verus!
