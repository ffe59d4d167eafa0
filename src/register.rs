//! Registers and their text, `R0` to `R15`.
use vstd::prelude::*;
use crate::error::{Grammar, ParseError};
use crate::lexical::{
    char_at, char_is, chars_of, class_end, dec_value, decimal_text, digit_char, digit_value, digits_at,
    is_digit, rest_of, run_end, CharClass,
};

verus! {

/// The number of registers.
pub const REGISTER_COUNT: u8 = 16;

/// A register by its index, 0 to 15 in a well-formed program.
#[derive(Debug, Clone, Copy, PartialEq, Eq, Structural)]
pub struct Register(pub u8);

/// `R` and a run of decimal digits whose value is at most 15.
pub open spec fn spec_register(s: Seq<char>, p: int) -> Option<(Register, int)> {
    if char_is(s, p, 'R') {
        let q = class_end(s, p + 1, CharClass::Digit);
        let v = dec_value(s.subrange(p + 1, q));
        if q > p + 1 && v < REGISTER_COUNT {
            Some((Register(v as u8), q))
        } else {
            None
        }
    } else {
        None
    }
}

pub fn register_at(s: &Vec<char>, p: usize) -> (r: Option<(Register, usize)>)
    requires
        p <= s.len(),
    ensures
        match r {
            None => spec_register(s@, p as int) is None,
            Some((x, q)) => spec_register(s@, p as int) == Some((x, q as int)) && q <= s.len(),
        },
{
    if !char_at(s, p, 'R') {
        return None;
    }
    match digits_at(s, p + 1) {
        None => None,
        Some((v, q)) => {
            if v < REGISTER_COUNT as u32 {
                Some((Register(v as u8), q))
            } else {
                None
            }
        },
    }
}

proof fn lemma_digit_char(d: nat)
    requires
        d < 10,
    ensures
        is_digit(digit_char(d)),
        digit_value(digit_char(d)) == d,
{
}

/// The text `R{n}` of register `n`, at `p` and followed by anything but a
/// digit, reads as that register.
pub proof fn lemma_register_text(s: Seq<char>, p: int, n: nat)
    requires
        n < REGISTER_COUNT,
        0 <= p,
        p + 1 + decimal_text(n).len() <= s.len(),
        s.subrange(p, p + 1 + decimal_text(n).len()) == seq!['R'] + decimal_text(n),
        p + 1 + decimal_text(n).len() == s.len() || !is_digit(s[p + 1 + decimal_text(n).len()]),
    ensures
        spec_register(s, p) == Some((Register(n as u8), p + 1 + decimal_text(n).len())),
{
    let t = decimal_text(n);
    let e = p + 1 + t.len();
    assert(s[p] == s.subrange(p, e)[0]);
    reveal_with_fuel(decimal_text, 2);
    if n < 10 {
        assert(t == seq![digit_char(n)]);
        lemma_digit_char(n);
        assert(s[p + 1] == s.subrange(p, e)[1]);
        reveal_with_fuel(run_end, 3);
        assert(run_end(s, p + 2, (s.len() - 1) as nat, CharClass::Digit) == p + 2);
        assert(class_end(s, p + 1, CharClass::Digit) == p + 2);
        assert(s.subrange(p + 1, p + 2) =~= t);
        reveal_with_fuel(dec_value, 2);
        assert(t.drop_last() =~= Seq::<char>::empty());
    } else {
        assert(n / 10 == 1);
        assert(decimal_text(1) == seq![digit_char(1)]);
        assert(t =~= seq!['1', digit_char((n % 10) as nat)]);
        lemma_digit_char((n % 10) as nat);
        assert(s[p + 1] == s.subrange(p, e)[1]);
        assert(s[p + 2] == s.subrange(p, e)[2]);
        reveal_with_fuel(run_end, 4);
        assert(run_end(s, p + 3, (s.len() - 2) as nat, CharClass::Digit) == p + 3);
        assert(class_end(s, p + 1, CharClass::Digit) == p + 3);
        assert(s.subrange(p + 1, p + 3) =~= t);
        reveal_with_fuel(dec_value, 3);
        assert(t.drop_last() =~= seq!['1']);
        assert(t.drop_last().drop_last() =~= Seq::<char>::empty());
    }
}

/// For every register, its text `R{n}` parses back to it, whole.
pub proof fn lemma_register_round_trip(n: nat)
    requires
        n < REGISTER_COUNT,
    ensures
        spec_register(seq!['R'] + decimal_text(n), 0) == Some(
            (Register(n as u8), 1 + decimal_text(n).len() as int),
        ),
{
    let s = seq!['R'] + decimal_text(n);
    assert(s.subrange(0, 1 + decimal_text(n).len() as int) =~= s);
    lemma_register_text(s, 0, n);
}

/// Parses a register, `R` followed by its decimal index.
pub fn parse_register(input: &str) -> (r: Result<(&str, Register), ParseError>)
    ensures
        match spec_register(input@, 0) {
            Some((x, q)) => r matches Ok((rest, y)) && y == x && rest@ == input@.subrange(
                q,
                input@.len() as int,
            ),
            None => r matches Err(e) && e.grammar == Grammar::Register && e.text@ == input@,
        },
{
    let s = chars_of(input);
    match register_at(&s, 0) {
        Some((x, q)) => Ok((rest_of(input, q), x)),
        None => Err(ParseError::new(Grammar::Register, input)),
    }
}

} // verus!
