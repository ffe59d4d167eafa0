//! Character classes, runs of characters and the numbers they spell.
//!
//! Every parser of the crate reads a line as a sequence of characters and a
//! position in it. The spec functions here describe what a parser sees at a
//! position; the exec functions compute the same on a `Vec<char>`.
use vstd::prelude::*;

verus! {

/// The classes of characters that the grammar takes runs of.
#[derive(Clone, Copy, PartialEq, Eq, Structural)]
pub enum CharClass {
    /// `0`-`9`.
    Digit,
    /// `0`-`9`, `a`-`f`, `A`-`F`.
    Hex,
    /// A space or a tab.
    Space,
    /// A Unicode letter or number.
    Alphanumeric,
    /// A Unicode letter.
    Alphabetic,
}

/// What `char::is_alphanumeric` returns for `c`.
pub uninterp spec fn alphanumeric(c: char) -> bool;

/// What `char::is_alphabetic` returns for `c`.
pub uninterp spec fn alphabetic(c: char) -> bool;

/// Relies on `char::is_alphanumeric` of std: Unicode's letters and numbers.
#[verifier::external_body]
fn is_alphanumeric(c: char) -> (r: bool)
    ensures
        r == alphanumeric(c),
{
    c.is_alphanumeric()
}

/// Relies on `char::is_alphabetic` of std: Unicode's letters.
#[verifier::external_body]
fn is_alphabetic(c: char) -> (r: bool)
    ensures
        r == alphabetic(c),
{
    c.is_alphabetic()
}

/// Relies on `String::push` of std: the character is appended.
#[verifier::external_body]
fn push_char(s: &mut String, c: char)
    ensures
        final(s)@ == old(s)@.push(c),
{
    s.push(c)
}

pub open spec fn is_digit(c: char) -> bool {
    '0' <= c && c <= '9'
}

pub open spec fn is_hex(c: char) -> bool {
    is_digit(c) || ('a' <= c && c <= 'f') || ('A' <= c && c <= 'F')
}

pub open spec fn is_space(c: char) -> bool {
    c == ' ' || c == '\t'
}

pub open spec fn in_class(k: CharClass, c: char) -> bool {
    match k {
        CharClass::Digit => is_digit(c),
        CharClass::Hex => is_hex(c),
        CharClass::Space => is_space(c),
        CharClass::Alphanumeric => alphanumeric(c),
        CharClass::Alphabetic => alphabetic(c),
    }
}

/// The value of a decimal digit.
pub open spec fn digit_value(c: char) -> nat {
    ((c as u32) - ('0' as u32)) as nat
}

/// The value of a hexadecimal digit, in either case.
pub open spec fn hex_digit_value(c: char) -> nat {
    if is_digit(c) {
        digit_value(c)
    } else if 'a' <= c && c <= 'f' {
        ((c as u32) - ('a' as u32) + 10) as nat
    } else {
        ((c as u32) - ('A' as u32) + 10) as nat
    }
}

/// The number that a string of decimal digits spells.
pub open spec fn dec_value(t: Seq<char>) -> nat
    decreases t.len(),
{
    if t.len() == 0 {
        0
    } else {
        dec_value(t.drop_last()) * 10 + digit_value(t.last())
    }
}

/// The number that a string of hexadecimal digits spells.
pub open spec fn hex_value(t: Seq<char>) -> nat
    decreases t.len(),
{
    if t.len() == 0 {
        0
    } else {
        hex_value(t.drop_last()) * 16 + hex_digit_value(t.last())
    }
}

pub open spec fn pow16(n: nat) -> nat
    decreases n,
{
    if n == 0 {
        1
    } else {
        16 * pow16((n - 1) as nat)
    }
}

/// Where the run of characters of class `k` that starts at `p` ends, taking
/// at most `limit` of them.
pub open spec fn run_end(s: Seq<char>, p: int, limit: nat, k: CharClass) -> int
    decreases limit,
{
    if limit > 0 && 0 <= p < s.len() && in_class(k, s[p]) {
        run_end(s, p + 1, (limit - 1) as nat, k)
    } else {
        p
    }
}

/// Where the unbounded run of class `k` from `p` ends.
pub open spec fn class_end(s: Seq<char>, p: int, k: CharClass) -> int {
    run_end(s, p, s.len(), k)
}

/// Whether `c` stands at position `p`.
pub open spec fn char_is(s: Seq<char>, p: int, c: char) -> bool {
    0 <= p < s.len() && s[p] == c
}

/// Whether the text `t` stands at position `p`.
pub open spec fn has_tag(s: Seq<char>, p: int, t: Seq<char>) -> bool {
    0 <= p && p + t.len() <= s.len() && s.subrange(p, p + t.len()) == t
}

/// The character of a decimal digit.
pub open spec fn digit_char(d: nat) -> char {
    if d == 0 {
        '0'
    } else if d == 1 {
        '1'
    } else if d == 2 {
        '2'
    } else if d == 3 {
        '3'
    } else if d == 4 {
        '4'
    } else if d == 5 {
        '5'
    } else if d == 6 {
        '6'
    } else if d == 7 {
        '7'
    } else if d == 8 {
        '8'
    } else {
        '9'
    }
}

/// The decimal digits of `n`, most significant first, without leading zeros.
pub open spec fn decimal_text(n: nat) -> Seq<char>
    decreases n,
{
    if n < 10 {
        seq![digit_char(n)]
    } else {
        decimal_text(n / 10).push(digit_char(n % 10))
    }
}

pub proof fn lemma_run_end_bounds(s: Seq<char>, p: int, limit: nat, k: CharClass)
    requires
        0 <= p <= s.len(),
    ensures
        p <= run_end(s, p, limit, k) <= s.len(),
        run_end(s, p, limit, k) <= p + limit,
        forall|i: int| p <= i < run_end(s, p, limit, k) ==> in_class(k, #[trigger] s[i]),
    decreases limit,
{
    if limit > 0 && 0 <= p < s.len() && in_class(k, s[p]) {
        lemma_run_end_bounds(s, p + 1, (limit - 1) as nat, k);
    }
}

/// A run over characters that are all of class `k` reaches the end.
pub proof fn lemma_run_end_full(s: Seq<char>, p: int, limit: nat, k: CharClass)
    requires
        0 <= p <= s.len(),
        p + limit >= s.len(),
        forall|i: int| p <= i < s.len() ==> in_class(k, #[trigger] s[i]),
    ensures
        run_end(s, p, limit, k) == s.len(),
    decreases limit,
{
    if p < s.len() {
        lemma_run_end_full(s, p + 1, (limit - 1) as nat, k);
    }
}

pub proof fn lemma_pow16_monotonic(a: nat, b: nat)
    requires
        a <= b,
    ensures
        pow16(a) <= pow16(b),
    decreases b,
{
    if a < b {
        lemma_pow16_monotonic(a, (b - 1) as nat);
    }
}

pub proof fn lemma_pow16_eight()
    ensures
        pow16(8) == 4294967296,
{
    reveal_with_fuel(pow16, 9);
}

/// The characters of a string.
pub fn chars_of(s: &str) -> (v: Vec<char>)
    ensures
        v@ == s@,
{
    let n = s.unicode_len();
    let mut v: Vec<char> = Vec::new();
    let mut i: usize = 0;
    while i < n
        invariant
            n == s@.len(),
            i <= n,
            v@ == s@.subrange(0, i as int),
        decreases n - i,
    {
        v.push(s.get_char(i));
        i = i + 1;
    }
    v
}

/// What remains of `s` after its first `p` characters.
pub fn rest_of<'a>(s: &'a str, p: usize) -> (r: &'a str)
    requires
        p <= s@.len(),
    ensures
        r@ == s@.subrange(p as int, s@.len() as int),
{
    let n = s.unicode_len();
    s.substring_char(p, n)
}

/// The characters `s[lo..hi]` as a `String`.
pub fn string_of(s: &Vec<char>, lo: usize, hi: usize) -> (r: String)
    requires
        lo <= hi <= s.len(),
    ensures
        r@ == s@.subrange(lo as int, hi as int),
{
    let mut r = String::new();
    let mut i: usize = lo;
    while i < hi
        invariant
            lo <= i <= hi <= s.len(),
            r@ == s@.subrange(lo as int, i as int),
        decreases hi - i,
    {
        push_char(&mut r, s[i]);
        assert(s@.subrange(lo as int, i + 1) == s@.subrange(lo as int, i as int).push(s@[i as int]));
        i = i + 1;
    }
    r
}

pub fn in_class_exec(k: CharClass, c: char) -> (r: bool)
    ensures
        r == in_class(k, c),
{
    match k {
        CharClass::Digit => '0' <= c && c <= '9',
        CharClass::Hex => ('0' <= c && c <= '9') || ('a' <= c && c <= 'f') || ('A' <= c && c
            <= 'F'),
        CharClass::Space => c == ' ' || c == '\t',
        CharClass::Alphanumeric => is_alphanumeric(c),
        CharClass::Alphabetic => is_alphabetic(c),
    }
}

/// Where the run of class `k` from `p` ends, taking at most `limit` characters.
pub fn scan_run(s: &Vec<char>, p: usize, limit: usize, k: CharClass) -> (r: usize)
    requires
        p <= s.len(),
    ensures
        r == run_end(s@, p as int, limit as nat, k),
        p <= r <= s.len(),
{
    let mut i: usize = p;
    let mut left: usize = limit;
    while left > 0 && i < s.len() && in_class_exec(k, s[i])
        invariant
            p <= i <= s.len(),
            run_end(s@, p as int, limit as nat, k) == run_end(s@, i as int, left as nat, k),
        decreases left,
    {
        i = i + 1;
        left = left - 1;
    }
    i
}

/// Where the unbounded run of class `k` from `p` ends.
pub fn scan_class(s: &Vec<char>, p: usize, k: CharClass) -> (r: usize)
    requires
        p <= s.len(),
    ensures
        r == class_end(s@, p as int, k),
        p <= r <= s.len(),
{
    scan_run(s, p, s.len(), k)
}

/// Whether `c` stands at position `p`.
pub fn char_at(s: &Vec<char>, p: usize, c: char) -> (r: bool)
    ensures
        r == char_is(s@, p as int, c),
{
    p < s.len() && s[p] == c
}

/// Whether the text `t` stands at position `p`.
pub fn tag_at(s: &Vec<char>, p: usize, t: &Vec<char>) -> (r: bool)
    requires
        p <= s.len(),
    ensures
        r == has_tag(s@, p as int, t@),
{
    if t.len() > s.len() - p {
        return false;
    }
    let mut i: usize = 0;
    while i < t.len()
        invariant
            p + t.len() <= s.len(),
            i <= t.len(),
            forall|j: int| 0 <= j < i ==> s@[p + j] == t@[j],
        decreases t.len() - i,
    {
        if s[p + i] != t[i] {
            assert(s@.subrange(p as int, p + t.len())[i as int] != t@[i as int]);
            return false;
        }
        i = i + 1;
    }
    assert(s@.subrange(p as int, p + t.len()) =~= t@);
    true
}

/// The largest value that `digits_at` tells apart; larger numbers read as it.
pub const DECIMAL_CAP: u32 = 100000;

/// A run of decimal digits at `p`: its value, capped at `DECIMAL_CAP`, and
/// where it ends; `None` when no digit stands at `p`.
pub fn digits_at(s: &Vec<char>, p: usize) -> (r: Option<(u32, usize)>)
    requires
        p <= s.len(),
    ensures
        match r {
            None => class_end(s@, p as int, CharClass::Digit) == p,
            Some((v, q)) => {
                &&& q == class_end(s@, p as int, CharClass::Digit)
                &&& p < q <= s.len()
                &&& v as nat == if dec_value(s@.subrange(p as int, q as int)) < DECIMAL_CAP {
                    dec_value(s@.subrange(p as int, q as int))
                } else {
                    DECIMAL_CAP as nat
                }
            },
        },
{
    let q = scan_class(s, p, CharClass::Digit);
    if q == p {
        return None;
    }
    proof {
        lemma_run_end_bounds(s@, p as int, s@.len(), CharClass::Digit);
    }
    let mut v: u32 = 0;
    let mut i: usize = p;
    while i < q
        invariant
            p <= i <= q <= s.len(),
            forall|j: int| p <= j < q ==> is_digit(#[trigger] s@[j]),
            v as nat == if dec_value(s@.subrange(p as int, i as int)) < DECIMAL_CAP {
                dec_value(s@.subrange(p as int, i as int))
            } else {
                DECIMAL_CAP as nat
            },
        decreases q - i,
    {
        let c = s[i];
        assert(is_digit(s@[i as int]));
        let d = (c as u32) - ('0' as u32);
        let ghost t = s@.subrange(p as int, i + 1);
        assert(t.drop_last() =~= s@.subrange(p as int, i as int));
        assert(t.last() == c);
        if v < DECIMAL_CAP {
            let w = v * 10 + d;
            v = if w < DECIMAL_CAP {
                w
            } else {
                DECIMAL_CAP
            };
        }
        i = i + 1;
    }
    Some((v, q))
}

/// A run of one to `max` hexadecimal digits at `p`, as long as it can be:
/// its value and where it ends.
pub fn hex_digits_at(s: &Vec<char>, p: usize, max: usize) -> (r: Option<(u32, usize)>)
    requires
        p <= s.len(),
        1 <= max <= 8,
    ensures
        match r {
            None => run_end(s@, p as int, max as nat, CharClass::Hex) == p,
            Some((v, q)) => {
                &&& q == run_end(s@, p as int, max as nat, CharClass::Hex)
                &&& p < q <= p + max
                &&& q <= s.len()
                &&& v as nat == hex_value(s@.subrange(p as int, q as int))
                &&& (v as nat) < pow16((q - p) as nat)
            },
        },
{
    let q = scan_run(s, p, max, CharClass::Hex);
    if q == p {
        return None;
    }
    proof {
        lemma_run_end_bounds(s@, p as int, max as nat, CharClass::Hex);
    }
    let mut v: u32 = 0;
    let mut i: usize = p;
    while i < q
        invariant
            p <= i <= q <= s.len(),
            q <= p + max,
            max <= 8,
            forall|j: int| p <= j < q ==> is_hex(#[trigger] s@[j]),
            v as nat == hex_value(s@.subrange(p as int, i as int)),
            (v as nat) < pow16((i - p) as nat),
        decreases q - i,
    {
        let c = s[i];
        assert(is_hex(s@[i as int]));
        let d: u32 = if '0' <= c && c <= '9' {
            (c as u32) - ('0' as u32)
        } else if 'a' <= c && c <= 'f' {
            (c as u32) - ('a' as u32) + 10
        } else {
            (c as u32) - ('A' as u32) + 10
        };
        let ghost t = s@.subrange(p as int, i + 1);
        assert(t.drop_last() =~= s@.subrange(p as int, i as int));
        assert(t.last() == c);
        proof {
            lemma_pow16_monotonic((i + 1 - p) as nat, 8);
            lemma_pow16_eight();
            assert(pow16((i + 1 - p) as nat) == 16 * pow16((i - p) as nat));
        }
        v = v * 16 + d;
        i = i + 1;
    }
    Some((v, q))
}

} // verus!
