//! Label definitions: `(0x1000)Start` gives the label `Start` the address
//! 0x1000.
use vstd::prelude::*;
use crate::address::{raw_address_value_at, spec_raw_address_value};
use crate::error::{Grammar, ParseError};
use crate::lexical::{char_at, char_is, chars_of, class_end, rest_of, scan_class, string_of, CharClass};

verus! {

/// A label and the address it stands for.
#[derive(Debug)]
pub struct Label {
    pub address: u16,
    pub name: String,
}

/// A label as a plain value.
pub struct LabelView {
    pub address: u16,
    pub name: Seq<char>,
}

impl View for Label {
    type V = LabelView;

    open spec fn view(&self) -> LabelView {
        LabelView { address: self.address, name: self.name@ }
    }
}

impl PartialEq for Label {
    fn eq(&self, o: &Label) -> (r: bool) {
        self.address == o.address && self.name == o.name
    }
}

impl vstd::std_specs::cmp::PartialEqSpecImpl for Label {
    open spec fn obeys_eq_spec() -> bool {
        true
    }

    open spec fn eq_spec(&self, o: &Label) -> bool {
        self@ == o@
    }
}

impl Label {
    pub fn new(address: u16, name: String) -> (r: Self)
        ensures
            r@ == (LabelView { address, name: name@ }),
    {
        Label { address, name }
    }
}

/// A run, possibly empty, of letters.
pub open spec fn spec_label_name(s: Seq<char>, p: int) -> (Seq<char>, int) {
    let q = class_end(s, p, CharClass::Alphabetic);
    (s.subrange(p, q), q)
}

/// Spaces, `(`, `0x` and a 16-bit hexadecimal address, `)`, spaces, a name.
pub open spec fn spec_label(s: Seq<char>, p: int) -> Option<(LabelView, int)> {
    let q0 = class_end(s, p, CharClass::Space);
    if char_is(s, q0, '(') {
        match spec_raw_address_value(s, q0 + 1) {
            Some((address, q1)) => if char_is(s, q1, ')') {
                let q2 = class_end(s, q1 + 1, CharClass::Space);
                let (name, q3) = spec_label_name(s, q2);
                Some((LabelView { address, name }, q3))
            } else {
                None
            },
            None => None,
        }
    } else {
        None
    }
}

pub fn label_at(s: &Vec<char>, p: usize) -> (r: Option<(Label, usize)>)
    requires
        p <= s.len(),
    ensures
        match r {
            None => spec_label(s@, p as int) is None,
            Some((l, q)) => spec_label(s@, p as int) == Some((l@, q as int)) && q <= s.len(),
        },
{
    let q0 = scan_class(s, p, CharClass::Space);
    if !char_at(s, q0, '(') {
        return None;
    }
    let (address, q1) = match raw_address_value_at(s, q0 + 1) {
        Some(r) => r,
        None => return None,
    };
    if !char_at(s, q1, ')') {
        return None;
    }
    let q2 = scan_class(s, q1 + 1, CharClass::Space);
    let q3 = scan_class(s, q2, CharClass::Alphabetic);
    Some((Label::new(address, string_of(s, q2, q3)), q3))
}

/// Parses a label name: the letters at the start of the input, possibly none.
pub fn parse_label_name(input: &str) -> (r: Result<(&str, String), ParseError>)
    ensures
        r matches Ok((rest, name)) && name@ == spec_label_name(input@, 0).0 && rest@
            == input@.subrange(spec_label_name(input@, 0).1, input@.len() as int),
{
    let s = chars_of(input);
    let q = scan_class(&s, 0, CharClass::Alphabetic);
    Ok((rest_of(input, q), string_of(&s, 0, q)))
}

/// Parses a label definition, `(0x1000)Start`.
pub fn parse_label(input: &str) -> (r: Result<(&str, Label), ParseError>)
    ensures
        match spec_label(input@, 0) {
            Some((l, q)) => r matches Ok((rest, x)) && x@ == l && rest@ == input@.subrange(
                q,
                input@.len() as int,
            ),
            None => r matches Err(e) && e.grammar == Grammar::Label && e.text@ == input@,
        },
{
    let s = chars_of(input);
    match label_at(&s, 0) {
        Some((l, q)) => Ok((rest_of(input, q), l)),
        None => Err(ParseError::new(Grammar::Label, input)),
    }
}

} // verus!
