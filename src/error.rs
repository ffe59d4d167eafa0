//! The errors of parsing.
use vstd::prelude::*;

verus! {

/// The grammars of the parsers, to say which one did not match.
#[derive(Debug, Clone, Copy, PartialEq, Eq, Structural)]
pub enum Grammar {
    Register,
    Hexadecimal,
    Address,
    Relative,
    Pointer,
    Operand,
    Instruction,
    Label,
    Line,
}

/// Text that does not match the grammar asked for. Literals too wide for
/// their field (a register above 15, a relative offset outside `i8`) fail the
/// same way.
#[derive(Debug)]
pub struct ParseError {
    /// The grammar that did not match.
    pub grammar: Grammar,
    /// The text it was asked to read.
    pub text: String,
}

impl ParseError {
    pub fn new(grammar: Grammar, text: &str) -> (r: ParseError)
        ensures
            r.grammar == grammar,
            r.text@ == text@,
    {
        ParseError { grammar, text: text.to_owned() }
    }
}

impl PartialEq for ParseError {
    fn eq(&self, o: &ParseError) -> (r: bool) {
        self.grammar == o.grammar && self.text == o.text
    }
}

impl vstd::std_specs::cmp::PartialEqSpecImpl for ParseError {
    open spec fn obeys_eq_spec() -> bool {
        true
    }

    open spec fn eq_spec(&self, o: &ParseError) -> bool {
        self.grammar == o.grammar && self.text@ == o.text@
    }
}

} // verus!
