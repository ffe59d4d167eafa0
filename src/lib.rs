//! An assembler for a 16-bit instruction set: a parser for its source lines,
//! a table of labels, and an encoder into machine words.
pub mod address;
pub mod error;
pub mod hexadecimal;
pub mod instruction;
pub mod label;
pub mod lexical;
pub mod opcode;
pub mod operand;
pub mod parser;
pub mod pointer;
pub mod register;
pub mod relative;
pub mod symbols;
pub mod word;
