//! A toolchain for a small fixed instruction set: an assembler front end that
//! turns mnemonic source text into 16-bit opcodes, and an interpreter back end
//! that fetches, decodes and executes those opcodes against an in-memory
//! machine state.

pub mod assembler;
pub mod interpreter;
pub mod lexer;
pub mod parser;
pub mod token;
