use chip8::assembler::{encode, program_bytes, Assembler};
use chip8::lexer::Lexer;
use chip8::parser::{Instruction, Parser, ParserError};
use chip8::token::{Delimeter, Mnemonic, Register, Token};

fn assemble(source: &str) -> Vec<u16> {
    let mut assembler = Assembler::from_source(source.as_bytes().to_vec());
    assembler.assemble()
}

// The concrete scenario: a whole source lexes, parses and encodes to the
// reference opcodes.
#[test]
fn test_assemble_scenario() {
    let source = "cls\nse v0, v1\nse v0, 20\nsne v0, v1\nsne v0, 20\njmp 0x200";
    assert_eq!(
        assemble(source),
        vec![0x00E0, 0x5010, 0x3014, 0x9010, 0x4014, 0x1200]
    );
}

#[test]
fn test_assemble_with_comments_and_whitespace() {
    let source = "
          ; a looping program that does nothing

          cls        ; clear screen
          se  v0, v1
          se  v0, 20
          sne v0, v1
          sne v0, 20
          jmp 0x200  ; back to the start
        ";
    assert_eq!(
        assemble(source),
        vec![0x00E0, 0x5010, 0x3014, 0x9010, 0x4014, 0x1200]
    );
}

// Round-trip cases for register+register mnemonics: text to reference
// bit pattern.
#[test]
fn test_reg_reg_round_trip_cases() {
    assert_eq!(assemble("se v1, v2"), vec![0x5120]);
    assert_eq!(assemble("sne v1, v2"), vec![0x9120]);
    assert_eq!(assemble("ld v1, v2"), vec![0x8120]);
    assert_eq!(assemble("add v1, v2"), vec![0x8124]);
    assert_eq!(assemble("or v3, va"), vec![0x83A1]);
    assert_eq!(assemble("and v3, va"), vec![0x83A2]);
    assert_eq!(assemble("xor v3, va"), vec![0x83A3]);
    assert_eq!(assemble("sub vf, v0"), vec![0x8F05]);
    assert_eq!(assemble("shr v4, v5"), vec![0x8456]);
    assert_eq!(assemble("subn v4, v5"), vec![0x8457]);
    assert_eq!(assemble("shl v4, v5"), vec![0x845E]);
}

#[test]
fn test_immediate_and_address_forms() {
    assert_eq!(assemble("ld v1, 0x20"), vec![0x6120]);
    assert_eq!(assemble("add v1, 5"), vec![0x7105]);
    assert_eq!(assemble("se v2, 0xAB"), vec![0x32AB]);
    assert_eq!(assemble("sne v2, 171"), vec![0x42AB]);
    assert_eq!(assemble("jmp 0x234"), vec![0x1234]);
    assert_eq!(assemble("call 0x345"), vec![0x2345]);
    // addresses are masked to 12 bits at encode time
    assert_eq!(assemble("jmp 0xFFF"), vec![0x1FFF]);
    assert_eq!(assemble("call 4660"), vec![0x2234]);
}

#[test]
fn test_remaining_mnemonics() {
    assert_eq!(assemble("rnd v0, 15"), vec![0xC00F]);
    assert_eq!(assemble("drw v0, v1, 5"), vec![0xD015]);
    assert_eq!(assemble("skp v4"), vec![0xE49E]);
    assert_eq!(assemble("sknp v4"), vec![0xE4A1]);
    assert_eq!(assemble("cls\nret"), vec![0x00E0, 0x00EE]);
}

#[test]
fn test_encode_encoder_only_variants() {
    assert_eq!(encode(Instruction::LdIndex(0, 0x123)), 0xA123);
    assert_eq!(encode(Instruction::JmpRegAddress(Register::V0, 0x300)), 0xB300);
    assert_eq!(encode(Instruction::LdFReg(Register::V7)), 0xF729);
    assert_eq!(encode(Instruction::LdBReg(Register::V7)), 0xF733);
    assert_eq!(encode(Instruction::LdMemIndexReg(Register::V7)), 0xF755);
    assert_eq!(encode(Instruction::LdRegMemIndex(Register::V7)), 0xF765);
}

// A malformed statement is skipped token by token until parsing
// resynchronizes; the skip consumes one token past the failed statement.
#[test]
fn test_parser_resynchronizes() {
    assert_eq!(assemble("bogus word\ncls"), vec![0x00E0]);
    assert_eq!(assemble("cls\nbogus\nret"), vec![0x00E0]);
    assert_eq!(assemble(""), vec![]);
    assert_eq!(assemble("; only a comment"), vec![]);
}

// The hardware-trap mnemonic is recognized and explicitly rejected.
#[test]
fn test_sys_rejected() {
    let lexer = Lexer::from(b"sys 0x100".to_vec());
    let mut parser = Parser::from(lexer);
    assert!(matches!(
        parser.parse_instruction(),
        Err(ParserError::Unsupported(Mnemonic::Sys))
    ));
}

#[test]
fn test_parse_error_variants() {
    let mut parser = Parser::from(Lexer::from(b"se 5, 6".to_vec()));
    assert!(matches!(
        parser.parse_instruction(),
        Err(ParserError::ExpectedRegister(Token::Number(5)))
    ));

    let mut parser = Parser::from(Lexer::from(b"jmp".to_vec()));
    assert!(matches!(
        parser.parse_instruction(),
        Err(ParserError::UnexpectedEnd)
    ));

    let mut parser = Parser::from(Lexer::from(b"or v0".to_vec()));
    assert!(matches!(
        parser.parse_instruction(),
        Err(ParserError::InputEnded(Token::Delimeter(Delimeter::Comma)))
    ));

    let mut parser = Parser::from(Lexer::from(b"or v0 v1".to_vec()));
    assert!(matches!(
        parser.parse_instruction(),
        Err(ParserError::Expected(
            Token::Delimeter(Delimeter::Comma),
            Token::Register(Register::V1)
        ))
    ));

    let mut parser = Parser::from(Lexer::from(b"v0".to_vec()));
    assert!(matches!(
        parser.parse_instruction(),
        Err(ParserError::ExpectedMnemonic(Token::Register(Register::V0)))
    ));

    let mut parser = Parser::from(Lexer::from(b"jmp v0".to_vec()));
    assert!(matches!(
        parser.parse_instruction(),
        Err(ParserError::ExpectedNumber(Token::Register(Register::V0)))
    ));

    let mut parser = Parser::from(Lexer::from(b"se v0, cls".to_vec()));
    assert!(matches!(
        parser.parse_instruction(),
        Err(ParserError::ExpectedOperand(Token::Mnemonic(Mnemonic::Cls)))
    ));
}

#[test]
fn test_parser_next_yields_instructions() {
    let mut parser = Parser::from(Lexer::from(b"cls\nld v1, 2".to_vec()));
    assert_eq!(parser.next(), Some(Instruction::Cls));
    assert_eq!(
        parser.next(),
        Some(Instruction::LdRegVal(Register::V1, 2))
    );
    assert_eq!(parser.next(), None);
}

#[test]
fn test_lexer_tokens() {
    let mut lexer = Lexer::from(b"cls se v0, 20 ; comment\n jmp 0x200".to_vec());
    assert_eq!(lexer.next(), Some(Token::Mnemonic(Mnemonic::Cls)));
    assert_eq!(lexer.next(), Some(Token::Mnemonic(Mnemonic::Se)));
    assert_eq!(lexer.next(), Some(Token::Register(Register::V0)));
    assert_eq!(lexer.next(), Some(Token::Delimeter(Delimeter::Comma)));
    assert_eq!(lexer.next(), Some(Token::Number(20)));
    assert_eq!(lexer.next(), Some(Token::Mnemonic(Mnemonic::Jmp)));
    assert_eq!(lexer.next(), Some(Token::Number(0x200)));
    assert_eq!(lexer.next(), None);
}

#[test]
fn test_lexer_unknown_tokens() {
    let mut lexer = Lexer::from(b"frob v0".to_vec());
    assert_eq!(lexer.next(), Some(Token::Unknown(b"frob".to_vec())));
    assert_eq!(lexer.next(), Some(Token::Register(Register::V0)));
    assert_eq!(lexer.next(), None);

    // a single unrecognized character is one unknown token
    let mut lexer = Lexer::from(b"cls !".to_vec());
    assert_eq!(lexer.next(), Some(Token::Mnemonic(Mnemonic::Cls)));
    assert_eq!(lexer.next(), Some(Token::Unknown(b"!".to_vec())));
    assert_eq!(lexer.next(), None);
}

#[test]
fn test_numeric_literal_edges() {
    // 16-bit limits: 65535 fits, 65536 does not; same in hexadecimal
    let mut lexer = Lexer::from(b"65535 65536 0xFFFF 0x10000 0x 0xzz".to_vec());
    assert_eq!(lexer.next(), Some(Token::Number(65535)));
    assert_eq!(lexer.next(), Some(Token::Unknown(b"65536".to_vec())));
    assert_eq!(lexer.next(), Some(Token::Number(0xFFFF)));
    assert_eq!(lexer.next(), Some(Token::Unknown(b"0x10000".to_vec())));
    assert_eq!(lexer.next(), Some(Token::Unknown(b"0x".to_vec())));
    assert_eq!(lexer.next(), Some(Token::Unknown(b"0xzz".to_vec())));
    assert_eq!(lexer.next(), None);
}

#[test]
fn test_token_tables() {
    assert_eq!(Mnemonic::try_from(b"cls"), Ok(Mnemonic::Cls));
    assert_eq!(Mnemonic::try_from(b"sknp"), Ok(Mnemonic::Sknp));
    assert_eq!(Mnemonic::try_from(b"CLS"), Err(()));
    assert_eq!(Register::try_from(b"v0"), Ok(Register::V0));
    assert_eq!(Register::try_from(b"vf"), Ok(Register::Vf));
    assert_eq!(Register::try_from(b"vg"), Err(()));
    assert_eq!(Register::try_from(b"V0"), Err(()));
    assert_eq!(Delimeter::try_from(b","), Ok(Delimeter::Comma));
    assert_eq!(Delimeter::try_from(b";"), Err(()));
    assert_eq!(Token::try_from(b"12"), Ok(Token::Number(12)));
    assert_eq!(Token::try_from(b"va"), Ok(Token::Register(Register::Va)));
    assert_eq!(Token::try_from(b"nope"), Err(()));
}

// The binary program format: each opcode as two big-endian bytes.
#[test]
fn test_program_bytes_big_endian() {
    let words = vec![0x00E0, 0x1200, 0xABCD];
    assert_eq!(
        program_bytes(&words),
        vec![0x00, 0xE0, 0x12, 0x00, 0xAB, 0xCD]
    );
}

// Assembling through the parser handle mirrors assembling from source.
#[test]
fn test_assembler_from_parser() {
    let lexer = Lexer::from(b"cls\nret".to_vec());
    let parser = Parser::from(lexer);
    let mut assembler = Assembler::from(parser);
    assert_eq!(assembler.next(), Some(0x00E0));
    assert_eq!(assembler.next(), Some(0x00EE));
    assert_eq!(assembler.next(), None);
}

#[test]
fn test_error_messages() {
    let mut parser = Parser::from(Lexer::from(b"or v0 v1".to_vec()));
    let err = parser.parse_instruction().unwrap_err();
    assert_eq!(err.message(), "expected a comma, but found a register name");

    let mut parser = Parser::from(Lexer::from(b"jmp v0".to_vec()));
    let err = parser.parse_instruction().unwrap_err();
    assert_eq!(err.message(), "expected a number, but found a register name");

    let mut parser = Parser::from(Lexer::from(b"jmp".to_vec()));
    let err = parser.parse_instruction().unwrap_err();
    assert_eq!(err.message(), "the input ended in the middle of a statement");

    let mut parser = Parser::from(Lexer::from(b"or v0".to_vec()));
    let err = parser.parse_instruction().unwrap_err();
    assert_eq!(err.message(), "expected a comma, but the input has ended");
}
