use assembler::address::{parse_raw_address, parse_raw_address_value, parse_symbolic_address, Address};
use assembler::error::{Grammar, ParseError};
use assembler::hexadecimal::{i16, prefixed_hex_8bits, raw_16bits, raw_8bits};
use assembler::label::{parse_label_name, Label};
use assembler::operand::{parse_operand, Operand};
use assembler::parser::parse_label;
use assembler::pointer::{parse_incremented_pointer, parse_pointer};
use assembler::register::{parse_register, Register};
use assembler::relative::{decimal, hexadecimal, parse_relative};

#[test]
fn raw_address() {
    assert_eq!(parse_raw_address("0x1102"), Ok(("", Address::Raw(0x1102))))
}

#[test]
fn address() {
    assert_eq!(
        parse_symbolic_address("@Address"),
        Ok(("", Address::Symbolic("Address".to_owned())))
    )
}

#[test]
fn decimal_soft_positive() {
    assert_eq!(decimal::parse_soft_positive("8"), Ok(("", 8)))
}

#[test]
fn decimal_hard_positive() {
    assert_eq!(decimal::parse_hard_positive("+8"), Ok(("", 8)))
}

#[test]
fn decimal_negative() {
    assert_eq!(decimal::parse_negative("-8"), Ok(("", -8)))
}

#[test]
fn hexadecimal_soft_positive() {
    assert_eq!(hexadecimal::parse_soft_positive("0x8"), Ok(("", 8)))
}

#[test]
fn hexadecimal_hard_positive() {
    assert_eq!(hexadecimal::parse_hard_positive("+0x8"), Ok(("", 8)))
}

#[test]
fn hexadecimal_negative() {
    assert_eq!(hexadecimal::parse_negative("-0x8"), Ok(("", -8)))
}

#[test]
fn complete_8bits() {
    assert_eq!(raw_8bits("ff"), Ok(("", 255)))
}

#[test]
fn uncomplete_8bits() {
    assert_eq!(raw_8bits("1"), Ok(("", 1)))
}

#[test]
fn complete_16bits() {
    assert_eq!(raw_16bits("ffff"), Ok(("", 65535)))
}

#[test]
fn uncomplete_16bits() {
    assert_eq!(raw_16bits("1"), Ok(("", 1)))
}

#[test]
fn incremented() {
    assert_eq!(
        parse_incremented_pointer("*R15+"),
        Ok(("", Operand::AddressIncrement(Register(15))))
    )
}

#[test]
fn pointer() {
    assert_eq!(
        parse_pointer("*R15"),
        Ok(("", Operand::Address(Register(15))))
    )
}

#[test]
fn register_zero() {
    assert_eq!(parse_register("R0"), Ok(("", Register(0))))
}

#[test]
fn register_one() {
    assert_eq!(parse_register("R1"), Ok(("", Register(1))))
}

#[test]
fn register_fifteen() {
    assert_eq!(parse_register("R15"), Ok(("", Register(15))))
}

#[test]
fn every_register_round_trips() {
    for n in 0u8..16 {
        let text = format!("R{}", n);
        assert_eq!(parse_register(&text), Ok(("", Register(n))));
    }
}

#[test]
fn register_above_fifteen_is_rejected() {
    assert_eq!(parse_register("R16"), Err(ParseError::new(Grammar::Register, "R16")));
    assert_eq!(parse_register("R99999999999"), Err(ParseError::new(Grammar::Register, "R99999999999")));
    assert_eq!(parse_register("R"), Err(ParseError::new(Grammar::Register, "R")));
    assert_eq!(parse_register("r1"), Err(ParseError::new(Grammar::Register, "r1")));
}

#[test]
fn register_leaves_the_rest() {
    assert_eq!(parse_register("R3, R4"), Ok((", R4", Register(3))));
}

#[test]
fn mode_bits_of_each_form() {
    let cases = [("R7", 0b00), ("@Label", 0b01), ("0x10", 0b01), ("*R7", 0b10), ("*R7+", 0b11)];
    for (text, bits) in cases {
        let (rest, operand) = parse_operand(text).unwrap();
        assert_eq!(rest, "");
        assert_eq!(operand.mode_bits(), bits);
        assert_eq!(u16::from(&operand), bits);
    }
}

#[test]
fn register_bits_of_each_form() {
    assert_eq!(parse_operand("R7").unwrap().1.get_register_value(), 7);
    assert_eq!(parse_operand("*R12+").unwrap().1.get_register_value(), 12);
    assert_eq!(parse_operand("@Label").unwrap().1.get_register_value(), 0);
}

#[test]
fn incremented_pointer_is_read_whole() {
    assert_eq!(
        parse_operand("*R15+"),
        Ok(("", Operand::AddressIncrement(Register(15))))
    );
    assert_eq!(parse_operand("*R15"), Ok(("", Operand::Address(Register(15)))));
}

#[test]
fn operand_that_matches_nothing() {
    assert_eq!(parse_operand("#5"), Err(ParseError::new(Grammar::Operand, "#5")));
    assert_eq!(parse_pointer("R1"), Err(ParseError::new(Grammar::Pointer, "R1")));
}

#[test]
fn literal_values() {
    assert_eq!(parse_raw_address_value("0x1102"), Ok(("", 4354)));
    assert_eq!(parse_relative("-0x8"), Ok(("", Address::Relative(-8))));
    assert_eq!(parse_relative("+8"), Ok(("", Address::Relative(8))));
    assert_eq!(parse_relative("8"), Ok(("", Address::Relative(8))));
    assert_eq!(parse_relative("0x8"), Ok(("", Address::Relative(8))));
}

#[test]
fn relative_label_and_range() {
    assert_eq!(
        parse_relative("Loop"),
        Ok(("", Address::RelativeSymbolic("Loop".to_owned())))
    );
    assert_eq!(decimal::parse("-127"), Ok(("", Address::Relative(-127))));
    assert_eq!(decimal::parse("-128"), Err(ParseError::new(Grammar::Relative, "-128")));
    assert_eq!(decimal::parse_soft_positive("128"), Err(ParseError::new(Grammar::Relative, "128")));
    assert_eq!(hexadecimal::parse("+0x7f"), Ok(("", Address::Relative(127))));
    assert_eq!(hexadecimal::parse_soft_positive("0x80"), Err(ParseError::new(Grammar::Relative, "0x80")));
    assert_eq!(hexadecimal::parse_negative("-0x7f"), Ok(("", -127)));
    assert_eq!(hexadecimal::parse_negative("-0x80"), Err(ParseError::new(Grammar::Relative, "-0x80")));
}

#[test]
fn relative_offset_out_of_range_fails() {
    assert_eq!(parse_relative("200"), Err(ParseError::new(Grammar::Relative, "200")));
    assert_eq!(parse_relative("+0xff"), Err(ParseError::new(Grammar::Relative, "+0xff")));
    assert_eq!(parse_relative("-0x80"), Err(ParseError::new(Grammar::Relative, "-0x80")));
    assert_eq!(parse_relative(""), Err(ParseError::new(Grammar::Relative, "")));
    assert_eq!(parse_relative("@Loop"), Err(ParseError::new(Grammar::Relative, "@Loop")));
    assert_eq!(
        parse_relative("L2 rest"),
        Ok((" rest", Address::RelativeSymbolic("L2".to_owned())))
    );
}

#[test]
fn address_takes_at_most_four_digits() {
    assert_eq!(parse_raw_address_value("0x12345"), Ok(("5", 0x1234)));
    assert_eq!(parse_raw_address_value("0xffff"), Ok(("", 0xffff)));
    assert_eq!(parse_raw_address_value("0x"), Err(ParseError::new(Grammar::Address, "0x")));
    assert_eq!(parse_raw_address_value("1000"), Err(ParseError::new(Grammar::Address, "1000")));
}

#[test]
fn hexadecimal_literals() {
    assert_eq!(raw_8bits("fff"), Ok(("f", 255)));
    assert_eq!(raw_8bits("g"), Err(ParseError::new(Grammar::Hexadecimal, "g")));
    assert_eq!(prefixed_hex_8bits("0xAb"), Ok(("", 0xab)));
    assert_eq!(raw_16bits("12345"), Ok(("5", 0x1234)));
}

#[test]
fn signed_immediates() {
    assert_eq!(i16("0x7"), Ok(("", 7)));
    assert_eq!(i16("+0x7fff"), Ok(("", 32767)));
    assert_eq!(i16("-0x1"), Ok(("", -1)));
    assert_eq!(i16("0xffff"), Ok(("", -1)));
    assert_eq!(i16("-0x8000"), Ok(("", -32768)));
    assert_eq!(i16("7"), Err(ParseError::new(Grammar::Hexadecimal, "7")));
}

#[test]
fn symbolic_name_stops_at_punctuation() {
    assert_eq!(
        parse_symbolic_address("@Tar-get"),
        Ok(("-get", Address::Symbolic("Tar".to_owned())))
    );
    assert_eq!(
        parse_symbolic_address("@Zone9"),
        Ok(("", Address::Symbolic("Zone9".to_owned())))
    );
}

#[test]
fn label_definition() {
    assert_eq!(
        parse_label("(0x1000)Start"),
        Ok(("", Label::new(0x1000, "Start".to_owned())))
    );
    assert_eq!(
        parse_label("  (0x20) Loop1"),
        Ok(("1", Label::new(0x20, "Loop".to_owned())))
    );
    assert_eq!(parse_label("MOV R1, R2"), Err(ParseError::new(Grammar::Label, "MOV R1, R2")));
    assert_eq!(parse_label_name("Start9"), Ok(("9", "Start".to_owned())));
}
