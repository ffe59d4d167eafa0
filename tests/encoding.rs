use assembler::address::Address;
use assembler::error::{Grammar, ParseError};
use assembler::instruction::{parse_instruction, v, vi, EncodeError, Instruction};
use assembler::operand::Operand;
use assembler::parser::{parse_line, scan_labels};
use assembler::register::Register;
use assembler::symbols::SymbolTable;

fn table(entries: &[(&str, u16)]) -> SymbolTable {
    let mut t = SymbolTable::new();
    for (name, address) in entries {
        t.insert(name.to_string(), *address);
    }
    t
}

#[test]
fn format_i_with_a_label() {
    let ins = parse_line("MOV R1, @Target").unwrap();
    assert_eq!(
        ins,
        Instruction::I {
            opname: "MOV".to_owned(),
            ts: Operand::Direct(Register(1)),
            tsd: Operand::NextWord(Address::Symbolic("Target".to_owned())),
        }
    );
    let words = ins.to_binary(&table(&[("Target", 0x2000)])).unwrap();
    assert_eq!(words, vec![0x7050, 0x2000]);
    assert_eq!((words[0] >> 4) & 0b11, 0b01);
    assert_eq!(words[0] & 0xf, 0);
    assert_eq!((words[0] >> 12) & 0b111, 0b111);
}

#[test]
fn format_i_with_two_extension_words() {
    let ins = parse_line("CMP 0x10, 0x20").unwrap();
    assert_eq!(ins.to_binary(&SymbolTable::new()), Ok(vec![0x3410, 0x0010, 0x0020]));
}

#[test]
fn format_iii_immediate() {
    let ins = parse_line("LI R3, 0x7").unwrap();
    assert_eq!(ins.to_binary(&SymbolTable::new()), Ok(vec![0xD003, 0x0007]));
    let ins = parse_line("LIMI R1, -0x1").unwrap();
    assert_eq!(ins.to_binary(&SymbolTable::new()), Ok(vec![0xD201, 0xffff]));
}

#[test]
fn missing_symbol_is_an_error() {
    let ins = parse_line("MOV R1, @Unknown").unwrap();
    assert_eq!(
        ins.to_binary(&table(&[("Target", 0x2000)])),
        Err(EncodeError::UnresolvedSymbol("Unknown".to_owned()))
    );
}

#[test]
fn encoding_is_deterministic() {
    let ins = parse_line("ADD *R2+, @Data").unwrap();
    let st = table(&[("Data", 0x1234)]);
    let first = ins.to_binary(&st);
    let second = ins.to_binary(&st);
    assert_eq!(first, second);
    assert_eq!(first, Ok(vec![0x6C90, 0x1234]));
}

#[test]
fn longer_mnemonics_are_read_whole() {
    let cases = [
        ("B R1", "B", 0xE801u16),
        ("BEQ R1", "BEQ", 0xE901),
        ("BNE R1", "BNE", 0xEA01),
        ("BC R1", "BC", 0xEB01),
        ("BNC R1", "BNC", 0xEC01),
        ("BGT R1", "BGT", 0xED01),
        ("BLT R1", "BLT", 0xEE01),
        ("BN R1", "BN", 0xEF01),
    ];
    for (text, name, word) in cases {
        let (rest, ins) = v::parse(text).unwrap();
        assert_eq!(rest, "");
        assert_eq!(ins.opname(), name);
        assert_eq!(ins.to_binary(&SymbolTable::new()), Ok(vec![word]));
    }
}

#[test]
fn jump_mnemonics_have_their_own_codes() {
    let names = ["JMP", "JEQ", "JNE", "JC", "JNC", "JGT", "JLT", "JN"];
    let mut seen = Vec::new();
    for name in names {
        let text = format!("{} -0x4", name);
        let (rest, ins) = vi::parse(&text).unwrap();
        assert_eq!(rest, "");
        assert_eq!(ins.opname(), name);
        let word = ins.to_binary(&SymbolTable::new()).unwrap()[0];
        assert_eq!(word & 0xff, 0xfc);
        let code = (word >> 8) & 0b111;
        assert!(!seen.contains(&code));
        seen.push(code);
    }
    assert_eq!(
        parse_line("JMP -0x4").unwrap().to_binary(&SymbolTable::new()),
        Ok(vec![0xF0FC])
    );
}

#[test]
fn limi_is_not_read_as_li() {
    let ins = parse_line("LIMI R2, 0x1").unwrap();
    assert_eq!(ins.opname(), "LIMI");
}

#[test]
fn format_ii_shift() {
    let ins = parse_line("SLL 3, R1").unwrap();
    assert_eq!(ins.to_binary(&SymbolTable::new()), Ok(vec![0x80C1]));
    assert_eq!(parse_line("SLL 16, R1"), Err(ParseError::new(Grammar::Line, "SLL 16, R1")));
}

#[test]
fn format_iv_and_roi() {
    let ins = parse_line("INC *R4").unwrap();
    assert_eq!(ins.to_binary(&SymbolTable::new()), Ok(vec![0xE124]));
    let ins = parse_line("ROI").unwrap();
    assert_eq!(
        ins,
        Instruction::IV { opname: "ROI".to_owned(), tsd: Operand::Direct(Register(0)) }
    );
    assert_eq!(ins.to_binary(&SymbolTable::new()), Ok(vec![0xE600]));
    let ins = parse_line("TST R2").unwrap();
    assert_eq!(ins.to_binary(&SymbolTable::new()), Ok(vec![0xE702]));
}

#[test]
fn relative_label_encodes_as_zero() {
    let ins = parse_line("JNE Loop").unwrap();
    assert_eq!(ins.to_binary(&SymbolTable::new()), Ok(vec![0xF200]));
}

#[test]
fn lines_that_do_not_parse() {
    assert_eq!(parse_line("MOV R1"), Err(ParseError::new(Grammar::Line, "MOV R1")));
    assert_eq!(parse_line("NOP"), Err(ParseError::new(Grammar::Line, "NOP")));
    assert_eq!(parse_line("MOV R1, R2 extra"), Err(ParseError::new(Grammar::Line, "MOV R1, R2 extra")));
    assert_eq!(parse_line("(0x1000)Start"), Err(ParseError::new(Grammar::Line, "(0x1000)Start")));
    assert_eq!(parse_line("JMP 200"), Err(ParseError::new(Grammar::Line, "JMP 200")));
    assert_eq!(parse_line("JMP +0xff"), Err(ParseError::new(Grammar::Line, "JMP +0xff")));
    assert_eq!(parse_line("JMP "), Err(ParseError::new(Grammar::Line, "JMP ")));
    assert_eq!(parse_instruction("FOO R1"), Err(ParseError::new(Grammar::Instruction, "FOO R1")));
    assert!(parse_line("  MOV R1 , R2  ").is_ok());
}

#[test]
fn hand_built_instructions_that_do_not_encode() {
    let st = SymbolTable::new();
    let wrong_format = Instruction::I {
        opname: "LI".to_owned(),
        ts: Operand::Direct(Register(0)),
        tsd: Operand::Direct(Register(0)),
    };
    assert_eq!(wrong_format.to_binary(&st), Err(EncodeError::UnknownMnemonic("LI".to_owned())));
    let wide = Instruction::IV { opname: "INC".to_owned(), tsd: Operand::Direct(Register(16)) };
    assert_eq!(wide.to_binary(&st), Err(EncodeError::OutOfRange));
    let relative = Instruction::V {
        opname: "B".to_owned(),
        tsd: Operand::NextWord(Address::Relative(3)),
    };
    assert_eq!(relative.to_binary(&st), Err(EncodeError::NotAbsolute));
}

#[test]
fn label_scan_keeps_the_last_definition() {
    let lines = vec!["(0x1000)Start".to_owned(), "MOV R1, R2".to_owned(), "".to_owned()];
    let st = scan_labels(&lines);
    assert_eq!(st.get(&"Start".to_owned()), Some(0x1000));
    let lines = vec!["(0x1000)Start".to_owned(), "(0x2000)Start".to_owned()];
    let st = scan_labels(&lines);
    assert_eq!(st.get(&"Start".to_owned()), Some(0x2000));
    assert_eq!(st.get(&"End".to_owned()), None);
}

#[test]
fn symbol_table_insert_overwrites() {
    let mut st = SymbolTable::new();
    st.insert("A".to_owned(), 1);
    st.insert("B".to_owned(), 2);
    st.insert("A".to_owned(), 3);
    assert_eq!(st.get(&"A".to_owned()), Some(3));
    assert_eq!(st.get(&"B".to_owned()), Some(2));
}
