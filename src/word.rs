//! The bit layout of instruction words. Bit 15 is the most significant.
use vstd::prelude::*;
use vstd::arithmetic::power2::{lemma2_to64, pow2};
use bit_field::BitField;

verus! {

/// `word` with bits `lo..hi` replaced by `value`.
pub open spec fn set_field(word: u16, lo: u16, hi: u16, value: u16) -> u16 {
    (word & !(((0xffffu16 >> ((16 - (hi - lo)) as u16)) << lo) as u16)) | ((value << lo) as u16)
}

/// Relies on `BitField::set_bits` of bit_field for `u16`: bits `lo..hi` of
/// the word take the value, the others stay. It panics on a range out of the
/// word or a value wider than the range, which `requires` leaves out.
#[verifier::external_body]
fn set_bits(word: u16, lo: u16, hi: u16, value: u16) -> (r: u16)
    requires
        lo < hi <= 16,
        hi - lo < 16,
        (value as nat) < pow2((hi - lo) as nat),
    ensures
        r == set_field(word, lo, hi, value),
{
    let mut w = word;
    w.set_bits(lo as usize..hi as usize, value);
    w
}

/// Format I: `0`, opcode (3 bits), source mode (2) and register (4),
/// destination mode (2) and register (4).
pub open spec fn word_i(op: u16, sm: u16, sr: u16, dm: u16, dr: u16) -> u16 {
    (op << 12u16) | (sm << 10u16) | (sr << 6u16) | (dm << 4u16) | dr
}

/// Format II: `10`, opcode (3 bits), `0`, shift amount (4), destination mode
/// (2) and register (4).
pub open spec fn word_ii(op: u16, shift: u16, dm: u16, dr: u16) -> u16 {
    (0b10u16 << 14u16) | (op << 11u16) | (shift << 6u16) | (dm << 4u16) | dr
}

/// Format III: `110`, opcode (4 bits), `000`, destination mode (2) and
/// register (4).
pub open spec fn word_iii(op: u16, dm: u16, dr: u16) -> u16 {
    (0b110u16 << 13u16) | (op << 9u16) | (dm << 4u16) | dr
}

/// Formats IV and V: a 5-bit prefix, opcode (3 bits), `00`, destination mode
/// (2) and register (4).
pub open spec fn word_unary(prefix: u16, op: u16, dm: u16, dr: u16) -> u16 {
    (prefix << 11u16) | (op << 8u16) | (dm << 4u16) | dr
}

/// Format VI: `11110`, opcode (3 bits), displacement (8).
pub open spec fn word_vi(op: u16, disp: u16) -> u16 {
    (0b11110u16 << 11u16) | (op << 8u16) | disp
}

pub fn pack_i(op: u16, sm: u16, sr: u16, dm: u16, dr: u16) -> (w: u16)
    requires
        op < 8,
        sm < 4,
        sr < 16,
        dm < 4,
        dr < 16,
    ensures
        w == word_i(op, sm, sr, dm, dr),
{
    proof {
        lemma2_to64();
    }
    let a = set_bits(0, 12, 15, op);
    let b = set_bits(a, 10, 12, sm);
    let c = set_bits(b, 6, 10, sr);
    let d = set_bits(c, 4, 6, dm);
    let e = set_bits(d, 0, 4, dr);
    assert(e == word_i(op, sm, sr, dm, dr)) by (bit_vector)
        requires
            a == set_field(0, 12, 15, op),
            b == set_field(a, 10, 12, sm),
            c == set_field(b, 6, 10, sr),
            d == set_field(c, 4, 6, dm),
            e == set_field(d, 0, 4, dr),
            op < 8,
            sm < 4,
            sr < 16,
            dm < 4,
            dr < 16,
    ;
    e
}

pub fn pack_ii(op: u16, shift: u16, dm: u16, dr: u16) -> (w: u16)
    requires
        op < 8,
        shift < 16,
        dm < 4,
        dr < 16,
    ensures
        w == word_ii(op, shift, dm, dr),
{
    proof {
        lemma2_to64();
    }
    let a = set_bits(0, 14, 16, 0b10);
    let b = set_bits(a, 11, 14, op);
    let c = set_bits(b, 6, 10, shift);
    let d = set_bits(c, 4, 6, dm);
    let e = set_bits(d, 0, 4, dr);
    assert(e == word_ii(op, shift, dm, dr)) by (bit_vector)
        requires
            a == set_field(0, 14, 16, 0b10),
            b == set_field(a, 11, 14, op),
            c == set_field(b, 6, 10, shift),
            d == set_field(c, 4, 6, dm),
            e == set_field(d, 0, 4, dr),
            op < 8,
            shift < 16,
            dm < 4,
            dr < 16,
    ;
    e
}

pub fn pack_iii(op: u16, dm: u16, dr: u16) -> (w: u16)
    requires
        op < 16,
        dm < 4,
        dr < 16,
    ensures
        w == word_iii(op, dm, dr),
{
    proof {
        lemma2_to64();
    }
    let a = set_bits(0, 13, 16, 0b110);
    let b = set_bits(a, 9, 13, op);
    let d = set_bits(b, 4, 6, dm);
    let e = set_bits(d, 0, 4, dr);
    assert(e == word_iii(op, dm, dr)) by (bit_vector)
        requires
            a == set_field(0, 13, 16, 0b110),
            b == set_field(a, 9, 13, op),
            d == set_field(b, 4, 6, dm),
            e == set_field(d, 0, 4, dr),
            op < 16,
            dm < 4,
            dr < 16,
    ;
    e
}

pub fn pack_unary(prefix: u16, op: u16, dm: u16, dr: u16) -> (w: u16)
    requires
        prefix < 32,
        op < 8,
        dm < 4,
        dr < 16,
    ensures
        w == word_unary(prefix, op, dm, dr),
{
    proof {
        lemma2_to64();
    }
    let a = set_bits(0, 11, 16, prefix);
    let b = set_bits(a, 8, 11, op);
    let d = set_bits(b, 4, 6, dm);
    let e = set_bits(d, 0, 4, dr);
    assert(e == word_unary(prefix, op, dm, dr)) by (bit_vector)
        requires
            a == set_field(0, 11, 16, prefix),
            b == set_field(a, 8, 11, op),
            d == set_field(b, 4, 6, dm),
            e == set_field(d, 0, 4, dr),
            prefix < 32,
            op < 8,
            dm < 4,
            dr < 16,
    ;
    e
}

pub fn pack_vi(op: u16, disp: u16) -> (w: u16)
    requires
        op < 8,
        disp < 256,
    ensures
        w == word_vi(op, disp),
{
    proof {
        lemma2_to64();
    }
    let a = set_bits(0, 11, 16, 0b11110);
    let b = set_bits(a, 8, 11, op);
    let e = set_bits(b, 0, 8, disp);
    assert(e == word_vi(op, disp)) by (bit_vector)
        requires
            a == set_field(0, 11, 16, 0b11110),
            b == set_field(a, 8, 11, op),
            e == set_field(b, 0, 8, disp),
            op < 8,
            disp < 256,
    ;
    e
}

} // verus!
