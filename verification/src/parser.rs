//! The instruction parser: consumes the token stream and produces one
//! abstract instruction per well-formed statement, applying each mnemonic's
//! operand grammar. A malformed statement yields a typed parse failure;
//! the stream itself skips one token past a failed statement and tries
//! again, so a single bad statement does not abort the whole translation.

use vstd::prelude::*;

use crate::lexer::{Lexer, spec_lex_from};
use crate::token::{Delimeter, Mnemonic, Register, Token, TokenV};

verus! {

/// One operand of a two-operand statement: a register name or a numeric
/// literal.
#[derive(Debug, Clone, Copy, PartialEq, Eq, Structural)]
pub enum Operand {
    Register(Register),
    Number(u16),
}

/// One abstract instruction: a tagged value with its typed operands,
/// produced by the parser and consumed by the encoder.
#[derive(Debug, Clone, Copy, PartialEq, Eq, Structural)]
pub enum Instruction {
    Cls,
    Ret,
    JmpAddress(u16),
    Call(u16),
    SeRegVal(Register, u16),
    SneRegVal(Register, u16),
    SeRegReg(Register, Register),
    LdRegVal(Register, u16),
    AddRegVal(Register, u16),
    LdRegReg(Register, Register),
    Or(Register, Register),
    And(Register, Register),
    Xor(Register, Register),
    AddRegReg(Register, Register),
    Sub(Register, Register),
    Shr(Register, Register),
    Subn(Register, Register),
    Shl(Register, Register),
    SneRegReg(Register, Register),
    LdIndex(u16, u16),
    JmpRegAddress(Register, u16),
    Rnd(Register, u16),
    Drw(Register, Register, u16),
    Skp(Register),
    Skpn(Register),
    LdRegDelay(Register, u16),
    LdRegKey(Register, u16),
    LdDelayReg(u16, Register),
    LdSoundReg(u16, Register),
    AddIndexReg(u16, Register),
    LdFReg(Register),
    LdBReg(Register),
    LdMemIndexReg(Register),
    LdRegMemIndex(Register),
}

/// A typed parse failure, carrying the offending token where one was read.
#[derive(Debug)]
pub enum ParserError {
    /// A specific token was required and another was found.
    Expected(Token, Token),
    ExpectedMnemonic(Token),
    ExpectedRegister(Token),
    ExpectedNumber(Token),
    ExpectedOperand(Token),
    /// A specific token was required and the input ended.
    InputEnded(Token),
    /// A mnemonic, register, number or operand was required and the input
    /// ended.
    UnexpectedEnd,
    /// The mnemonic is recognized but names the machine's hardware trap,
    /// which this assembler rejects.
    Unsupported(Mnemonic),
}

/// The mathematical value of a [`ParserError`], over token values.
pub ghost enum ParserErrorV {
    Expected(TokenV, TokenV),
    ExpectedMnemonic(TokenV),
    ExpectedRegister(TokenV),
    ExpectedNumber(TokenV),
    ExpectedOperand(TokenV),
    InputEnded(TokenV),
    UnexpectedEnd,
    Unsupported(Mnemonic),
}

impl View for ParserError {
    type V = ParserErrorV;

    open spec fn view(&self) -> ParserErrorV {
        match self {
            ParserError::Expected(a, b) => ParserErrorV::Expected(a@, b@),
            ParserError::ExpectedMnemonic(t) => ParserErrorV::ExpectedMnemonic(t@),
            ParserError::ExpectedRegister(t) => ParserErrorV::ExpectedRegister(t@),
            ParserError::ExpectedNumber(t) => ParserErrorV::ExpectedNumber(t@),
            ParserError::ExpectedOperand(t) => ParserErrorV::ExpectedOperand(t@),
            ParserError::InputEnded(t) => ParserErrorV::InputEnded(t@),
            ParserError::UnexpectedEnd => ParserErrorV::UnexpectedEnd,
            ParserError::Unsupported(m) => ParserErrorV::Unsupported(*m),
        }
    }
}

/// A parse result together with the error abstracted to its value.
pub open spec fn res_view<T>(r: Result<T, ParserError>) -> Result<T, ParserErrorV> {
    match r {
        Ok(t) => Ok(t),
        Err(e) => Err(e@),
    }
}

/// The token values of a token sequence.
pub open spec fn deep_view(ts: Seq<Token>) -> Seq<TokenV> {
    Seq::new(ts.len(), |i: int| ts[i]@)
}

pub open spec fn spec_parse_mnemonic(toks: Seq<TokenV>, i: int) -> (Result<
    Mnemonic,
    ParserErrorV,
>, int) {
    if i < 0 || i >= toks.len() {
        (Err(ParserErrorV::UnexpectedEnd), i)
    } else {
        match toks[i] {
            TokenV::Mnemonic(m) => (Ok(m), i + 1),
            t => (Err(ParserErrorV::ExpectedMnemonic(t)), i + 1),
        }
    }
}

pub open spec fn spec_parse_register(toks: Seq<TokenV>, i: int) -> (Result<
    Register,
    ParserErrorV,
>, int) {
    if i < 0 || i >= toks.len() {
        (Err(ParserErrorV::UnexpectedEnd), i)
    } else {
        match toks[i] {
            TokenV::Register(r) => (Ok(r), i + 1),
            t => (Err(ParserErrorV::ExpectedRegister(t)), i + 1),
        }
    }
}

pub open spec fn spec_parse_number(toks: Seq<TokenV>, i: int) -> (Result<u16, ParserErrorV>, int) {
    if i < 0 || i >= toks.len() {
        (Err(ParserErrorV::UnexpectedEnd), i)
    } else {
        match toks[i] {
            TokenV::Number(n) => (Ok(n), i + 1),
            t => (Err(ParserErrorV::ExpectedNumber(t)), i + 1),
        }
    }
}

pub open spec fn spec_parse_operand(toks: Seq<TokenV>, i: int) -> (Result<
    Operand,
    ParserErrorV,
>, int) {
    if i < 0 || i >= toks.len() {
        (Err(ParserErrorV::UnexpectedEnd), i)
    } else {
        match toks[i] {
            TokenV::Register(r) => (Ok(Operand::Register(r)), i + 1),
            TokenV::Number(n) => (Ok(Operand::Number(n)), i + 1),
            t => (Err(ParserErrorV::ExpectedOperand(t)), i + 1),
        }
    }
}

pub open spec fn spec_parse_token(toks: Seq<TokenV>, i: int, expected: TokenV) -> (Result<
    TokenV,
    ParserErrorV,
>, int) {
    if i < 0 || i >= toks.len() {
        (Err(ParserErrorV::InputEnded(expected)), i)
    } else if toks[i] == expected {
        (Ok(toks[i]), i + 1)
    } else {
        (Err(ParserErrorV::Expected(expected, toks[i])), i + 1)
    }
}

/// Register, comma, register: the operand shape of the two-register
/// arithmetic and logic statements.
pub open spec fn spec_parse_two_regs(toks: Seq<TokenV>, i: int) -> (Result<
    (Register, Register),
    ParserErrorV,
>, int) {
    let (r1, i1) = spec_parse_register(toks, i);
    match r1 {
        Err(e) => (Err(e), i1),
        Ok(vx) => {
            let (c, i2) = spec_parse_token(toks, i1, TokenV::Delimeter(Delimeter::Comma));
            match c {
                Err(e) => (Err(e), i2),
                Ok(_) => {
                    let (r2, i3) = spec_parse_register(toks, i2);
                    match r2 {
                        Err(e) => (Err(e), i3),
                        Ok(vy) => (Ok((vx, vy)), i3),
                    }
                },
            }
        },
    }
}

/// Register, comma, then a register or a number: the operand shape that
/// yields the reg-reg and reg-immediate variants of one mnemonic.
pub open spec fn spec_parse_reg_operand(toks: Seq<TokenV>, i: int) -> (Result<
    (Register, Operand),
    ParserErrorV,
>, int) {
    let (r1, i1) = spec_parse_register(toks, i);
    match r1 {
        Err(e) => (Err(e), i1),
        Ok(vx) => {
            let (c, i2) = spec_parse_token(toks, i1, TokenV::Delimeter(Delimeter::Comma));
            match c {
                Err(e) => (Err(e), i2),
                Ok(_) => {
                    let (op, i3) = spec_parse_operand(toks, i2);
                    match op {
                        Err(e) => (Err(e), i3),
                        Ok(o) => (Ok((vx, o)), i3),
                    }
                },
            }
        },
    }
}

/// Register, comma, number: the operand shape of the random statement.
pub open spec fn spec_parse_reg_number(toks: Seq<TokenV>, i: int) -> (Result<
    (Register, u16),
    ParserErrorV,
>, int) {
    let (r1, i1) = spec_parse_register(toks, i);
    match r1 {
        Err(e) => (Err(e), i1),
        Ok(vx) => {
            let (c, i2) = spec_parse_token(toks, i1, TokenV::Delimeter(Delimeter::Comma));
            match c {
                Err(e) => (Err(e), i2),
                Ok(_) => {
                    let (n, i3) = spec_parse_number(toks, i2);
                    match n {
                        Err(e) => (Err(e), i3),
                        Ok(nn) => (Ok((vx, nn)), i3),
                    }
                },
            }
        },
    }
}

/// One whole statement, starting from its mnemonic, per the per-mnemonic
/// operand grammar.
pub open spec fn spec_parse_instruction(toks: Seq<TokenV>, i: int) -> (Result<
    Instruction,
    ParserErrorV,
>, int) {
    let (m, i1) = spec_parse_mnemonic(toks, i);
    match m {
        Err(e) => (Err(e), i1),
        Ok(mn) => match mn {
            Mnemonic::Cls => (Ok(Instruction::Cls), i1),
            Mnemonic::Ret => (Ok(Instruction::Ret), i1),
            Mnemonic::Sys => (Err(ParserErrorV::Unsupported(Mnemonic::Sys)), i1),
            Mnemonic::Jmp => {
                let (n, i2) = spec_parse_number(toks, i1);
                match n {
                    Err(e) => (Err(e), i2),
                    Ok(nn) => (Ok(Instruction::JmpAddress(nn)), i2),
                }
            },
            Mnemonic::Call => {
                let (n, i2) = spec_parse_number(toks, i1);
                match n {
                    Err(e) => (Err(e), i2),
                    Ok(nn) => (Ok(Instruction::Call(nn)), i2),
                }
            },
            Mnemonic::Se => {
                let (p, i2) = spec_parse_reg_operand(toks, i1);
                match p {
                    Err(e) => (Err(e), i2),
                    Ok((vx, Operand::Register(vy))) => (Ok(Instruction::SeRegReg(vx, vy)), i2),
                    Ok((vx, Operand::Number(nn))) => (Ok(Instruction::SeRegVal(vx, nn)), i2),
                }
            },
            Mnemonic::Sne => {
                let (p, i2) = spec_parse_reg_operand(toks, i1);
                match p {
                    Err(e) => (Err(e), i2),
                    Ok((vx, Operand::Register(vy))) => (Ok(Instruction::SneRegReg(vx, vy)), i2),
                    Ok((vx, Operand::Number(nn))) => (Ok(Instruction::SneRegVal(vx, nn)), i2),
                }
            },
            Mnemonic::Ld => {
                let (p, i2) = spec_parse_reg_operand(toks, i1);
                match p {
                    Err(e) => (Err(e), i2),
                    Ok((vx, Operand::Register(vy))) => (Ok(Instruction::LdRegReg(vx, vy)), i2),
                    Ok((vx, Operand::Number(nn))) => (Ok(Instruction::LdRegVal(vx, nn)), i2),
                }
            },
            Mnemonic::Add => {
                let (p, i2) = spec_parse_reg_operand(toks, i1);
                match p {
                    Err(e) => (Err(e), i2),
                    Ok((vx, Operand::Register(vy))) => (Ok(Instruction::AddRegReg(vx, vy)), i2),
                    Ok((vx, Operand::Number(nn))) => (Ok(Instruction::AddRegVal(vx, nn)), i2),
                }
            },
            Mnemonic::Or => {
                let (p, i2) = spec_parse_two_regs(toks, i1);
                match p {
                    Err(e) => (Err(e), i2),
                    Ok((vx, vy)) => (Ok(Instruction::Or(vx, vy)), i2),
                }
            },
            Mnemonic::And => {
                let (p, i2) = spec_parse_two_regs(toks, i1);
                match p {
                    Err(e) => (Err(e), i2),
                    Ok((vx, vy)) => (Ok(Instruction::And(vx, vy)), i2),
                }
            },
            Mnemonic::Xor => {
                let (p, i2) = spec_parse_two_regs(toks, i1);
                match p {
                    Err(e) => (Err(e), i2),
                    Ok((vx, vy)) => (Ok(Instruction::Xor(vx, vy)), i2),
                }
            },
            Mnemonic::Sub => {
                let (p, i2) = spec_parse_two_regs(toks, i1);
                match p {
                    Err(e) => (Err(e), i2),
                    Ok((vx, vy)) => (Ok(Instruction::Sub(vx, vy)), i2),
                }
            },
            Mnemonic::Shr => {
                let (p, i2) = spec_parse_two_regs(toks, i1);
                match p {
                    Err(e) => (Err(e), i2),
                    Ok((vx, vy)) => (Ok(Instruction::Shr(vx, vy)), i2),
                }
            },
            Mnemonic::Subn => {
                let (p, i2) = spec_parse_two_regs(toks, i1);
                match p {
                    Err(e) => (Err(e), i2),
                    Ok((vx, vy)) => (Ok(Instruction::Subn(vx, vy)), i2),
                }
            },
            Mnemonic::Shl => {
                let (p, i2) = spec_parse_two_regs(toks, i1);
                match p {
                    Err(e) => (Err(e), i2),
                    Ok((vx, vy)) => (Ok(Instruction::Shl(vx, vy)), i2),
                }
            },
            Mnemonic::Rnd => {
                let (p, i2) = spec_parse_reg_number(toks, i1);
                match p {
                    Err(e) => (Err(e), i2),
                    Ok((vx, nn)) => (Ok(Instruction::Rnd(vx, nn)), i2),
                }
            },
            Mnemonic::Drw => {
                let (p, i2) = spec_parse_two_regs(toks, i1);
                match p {
                    Err(e) => (Err(e), i2),
                    Ok((vx, vy)) => {
                        let (c, i3) = spec_parse_token(
                            toks,
                            i2,
                            TokenV::Delimeter(Delimeter::Comma),
                        );
                        match c {
                            Err(e) => (Err(e), i3),
                            Ok(_) => {
                                let (n, i4) = spec_parse_number(toks, i3);
                                match n {
                                    Err(e) => (Err(e), i4),
                                    Ok(nn) => (Ok(Instruction::Drw(vx, vy, nn)), i4),
                                }
                            },
                        }
                    },
                }
            },
            Mnemonic::Skp => {
                let (r, i2) = spec_parse_register(toks, i1);
                match r {
                    Err(e) => (Err(e), i2),
                    Ok(vx) => (Ok(Instruction::Skp(vx)), i2),
                }
            },
            Mnemonic::Sknp => {
                let (r, i2) = spec_parse_register(toks, i1);
                match r {
                    Err(e) => (Err(e), i2),
                    Ok(vx) => (Ok(Instruction::Skpn(vx)), i2),
                }
            },
        },
    }
}

/// Parsing a statement never moves backwards and never runs past the end
/// of the token sequence; a statement that starts before the end consumes
/// at least one token.
pub proof fn lemma_parse_instruction_bounds(toks: Seq<TokenV>, i: int)
    requires
        0 <= i <= toks.len(),
    ensures
        i <= spec_parse_instruction(toks, i).1 <= toks.len(),
        i < toks.len() ==> i < spec_parse_instruction(toks, i).1,
{
}

/// The next well-formed statement from position `i` on, skipping one token
/// past each malformed statement, and the position just past it.
pub open spec fn spec_parser_next(toks: Seq<TokenV>, i: int) -> (Option<Instruction>, int)
    decreases toks.len() - i,
    when 0 <= i <= toks.len()
{
    if i >= toks.len() {
        (None, i)
    } else {
        let (res, j) = spec_parse_instruction(toks, i);
        match res {
            Ok(ins) => (Some(ins), j),
            Err(_) => {
                proof {
                    lemma_parse_instruction_bounds(toks, i);
                }
                if j >= toks.len() {
                    (None, toks.len() as int)
                } else {
                    spec_parser_next(toks, j + 1)
                }
            },
        }
    }
}

/// The parser over one token stream. The whole stream is scanned up front,
/// so the statement grammar works over a plain sequence of tokens.
#[derive(Debug)]
pub struct Parser {
    tokens: Vec<Token>,
    pos: usize,
}

impl Parser {
    pub closed spec fn wf(&self) -> bool {
        self.pos <= self.tokens@.len()
    }

    pub closed spec fn toks(&self) -> Seq<TokenV> {
        deep_view(self.tokens@)
    }

    pub closed spec fn pos_view(&self) -> int {
        self.pos as int
    }

    /// A well-formed parser never stands past the end of its tokens.
    pub proof fn lemma_wf(&self)
        requires
            self.wf(),
        ensures
            0 <= self.pos_view() <= self.toks().len(),
    {
    }

    /// Builds a parser by running the given token stream to its end.
    pub fn from(lexer: Lexer) -> (r: Parser)
        requires
            lexer.wf(),
        ensures
            r.wf(),
            r.pos_view() == 0,
            r.toks() == spec_lex_from(lexer.input_view(), lexer.pos_view()),
    {
        proof {
            lexer.lemma_wf();
        }
        let ghost s = lexer.input_view();
        let ghost p0 = lexer.pos_view();
        let mut lx = lexer;
        let mut tokens: Vec<Token> = Vec::new();
        loop
            invariant_except_break
                lx.wf(),
                lx.input_view() == s,
                0 <= lx.pos_view() <= s.len(),
                0 <= p0 <= s.len(),
                deep_view(tokens@) + spec_lex_from(s, lx.pos_view()) == spec_lex_from(s, p0),
            ensures
                deep_view(tokens@) == spec_lex_from(s, p0),
            decreases s.len() - lx.pos_view(),
        {
            let ghost p_before = lx.pos_view();
            match lx.next() {
                Some(tok) => {
                    proof {
                        crate::lexer::lemma_next_token_advances(s, p_before, false);
                    }
                    let ghost ts_before = tokens@;
                    tokens.push(tok);
                    proof {
                        assert(deep_view(tokens@) =~= deep_view(ts_before).push(tokens@.last()@));
                        assert(deep_view(tokens@) + spec_lex_from(s, lx.pos_view())
                            =~= spec_lex_from(s, p0));
                    }
                },
                None => {
                    proof {
                        assert(spec_lex_from(s, p_before) =~= Seq::<TokenV>::empty());
                        assert(deep_view(tokens@) =~= spec_lex_from(s, p0));
                    }
                    break;
                },
            }
        }
        Parser { tokens, pos: 0 }
    }

    /// Consumes the next token, which must be a mnemonic.
    pub fn parse_mnemonic(&mut self) -> (r: Result<Mnemonic, ParserError>)
        requires
            old(self).wf(),
        ensures
            final(self).wf(),
            final(self).toks() == old(self).toks(),
            (res_view(r), final(self).pos_view()) == spec_parse_mnemonic(
                old(self).toks(),
                old(self).pos_view(),
            ),
    {
        if self.pos >= self.tokens.len() {
            return Err(ParserError::UnexpectedEnd);
        }
        match &self.tokens[self.pos] {
            Token::Mnemonic(m) => {
                let m = *m;
                self.pos = self.pos + 1;
                Ok(m)
            },
            _ => {
                let t = self.tokens[self.pos].clone();
                self.pos = self.pos + 1;
                Err(ParserError::ExpectedMnemonic(t))
            },
        }
    }

    /// Consumes the next token, which must be a register name.
    pub fn parse_register(&mut self) -> (r: Result<Register, ParserError>)
        requires
            old(self).wf(),
        ensures
            final(self).wf(),
            final(self).toks() == old(self).toks(),
            (res_view(r), final(self).pos_view()) == spec_parse_register(
                old(self).toks(),
                old(self).pos_view(),
            ),
    {
        if self.pos >= self.tokens.len() {
            return Err(ParserError::UnexpectedEnd);
        }
        match &self.tokens[self.pos] {
            Token::Register(reg) => {
                let reg = *reg;
                self.pos = self.pos + 1;
                Ok(reg)
            },
            _ => {
                let t = self.tokens[self.pos].clone();
                self.pos = self.pos + 1;
                Err(ParserError::ExpectedRegister(t))
            },
        }
    }

    /// Consumes the next token, which must be a numeric literal.
    pub fn parse_number(&mut self) -> (r: Result<u16, ParserError>)
        requires
            old(self).wf(),
        ensures
            final(self).wf(),
            final(self).toks() == old(self).toks(),
            (res_view(r), final(self).pos_view()) == spec_parse_number(
                old(self).toks(),
                old(self).pos_view(),
            ),
    {
        if self.pos >= self.tokens.len() {
            return Err(ParserError::UnexpectedEnd);
        }
        match &self.tokens[self.pos] {
            Token::Number(n) => {
                let n = *n;
                self.pos = self.pos + 1;
                Ok(n)
            },
            _ => {
                let t = self.tokens[self.pos].clone();
                self.pos = self.pos + 1;
                Err(ParserError::ExpectedNumber(t))
            },
        }
    }

    /// Consumes the next token, which must be a register name or a numeric
    /// literal.
    pub fn parse_operand(&mut self) -> (r: Result<Operand, ParserError>)
        requires
            old(self).wf(),
        ensures
            final(self).wf(),
            final(self).toks() == old(self).toks(),
            (res_view(r), final(self).pos_view()) == spec_parse_operand(
                old(self).toks(),
                old(self).pos_view(),
            ),
    {
        if self.pos >= self.tokens.len() {
            return Err(ParserError::UnexpectedEnd);
        }
        match &self.tokens[self.pos] {
            Token::Register(reg) => {
                let reg = *reg;
                self.pos = self.pos + 1;
                Ok(Operand::Register(reg))
            },
            Token::Number(n) => {
                let n = *n;
                self.pos = self.pos + 1;
                Ok(Operand::Number(n))
            },
            _ => {
                let t = self.tokens[self.pos].clone();
                self.pos = self.pos + 1;
                Err(ParserError::ExpectedOperand(t))
            },
        }
    }

    /// Consumes the next token, which must equal `expected`.
    pub fn parse_token(&mut self, expected: Token) -> (r: Result<Token, ParserError>)
        requires
            old(self).wf(),
        ensures
            final(self).wf(),
            final(self).toks() == old(self).toks(),
            ({
                let (sr, sp) = spec_parse_token(
                    old(self).toks(),
                    old(self).pos_view(),
                    expected@,
                );
                final(self).pos_view() == sp && match sr {
                    Ok(tv) => r is Ok && r->Ok_0@ == tv,
                    Err(ev) => r is Err && r->Err_0@ == ev,
                }
            }),
    {
        if self.pos >= self.tokens.len() {
            return Err(ParserError::InputEnded(expected));
        }
        let t = self.tokens[self.pos].clone();
        self.pos = self.pos + 1;
        if t == expected {
            Ok(t)
        } else {
            Err(ParserError::Expected(expected, t))
        }
    }

    /// Parses one whole statement, starting from its mnemonic.
    pub fn parse_instruction(&mut self) -> (r: Result<Instruction, ParserError>)
        requires
            old(self).wf(),
        ensures
            final(self).wf(),
            final(self).toks() == old(self).toks(),
            (res_view(r), final(self).pos_view()) == spec_parse_instruction(
                old(self).toks(),
                old(self).pos_view(),
            ),
    {
        let mn = match self.parse_mnemonic() {
            Ok(m) => m,
            Err(e) => {
                return Err(e);
            },
        };
        match mn {
            Mnemonic::Cls => Ok(Instruction::Cls),
            Mnemonic::Ret => Ok(Instruction::Ret),
            Mnemonic::Sys => Err(ParserError::Unsupported(Mnemonic::Sys)),
            Mnemonic::Jmp => {
                match self.parse_number() {
                    Ok(n) => Ok(Instruction::JmpAddress(n)),
                    Err(e) => Err(e),
                }
            },
            Mnemonic::Call => {
                match self.parse_number() {
                    Ok(n) => Ok(Instruction::Call(n)),
                    Err(e) => Err(e),
                }
            },
            Mnemonic::Se => {
                match self.parse_reg_operand() {
                    Ok((vx, Operand::Register(vy))) => Ok(Instruction::SeRegReg(vx, vy)),
                    Ok((vx, Operand::Number(nn))) => Ok(Instruction::SeRegVal(vx, nn)),
                    Err(e) => Err(e),
                }
            },
            Mnemonic::Sne => {
                match self.parse_reg_operand() {
                    Ok((vx, Operand::Register(vy))) => Ok(Instruction::SneRegReg(vx, vy)),
                    Ok((vx, Operand::Number(nn))) => Ok(Instruction::SneRegVal(vx, nn)),
                    Err(e) => Err(e),
                }
            },
            Mnemonic::Ld => {
                match self.parse_reg_operand() {
                    Ok((vx, Operand::Register(vy))) => Ok(Instruction::LdRegReg(vx, vy)),
                    Ok((vx, Operand::Number(nn))) => Ok(Instruction::LdRegVal(vx, nn)),
                    Err(e) => Err(e),
                }
            },
            Mnemonic::Add => {
                match self.parse_reg_operand() {
                    Ok((vx, Operand::Register(vy))) => Ok(Instruction::AddRegReg(vx, vy)),
                    Ok((vx, Operand::Number(nn))) => Ok(Instruction::AddRegVal(vx, nn)),
                    Err(e) => Err(e),
                }
            },
            Mnemonic::Or => {
                match self.parse_two_regs() {
                    Ok((vx, vy)) => Ok(Instruction::Or(vx, vy)),
                    Err(e) => Err(e),
                }
            },
            Mnemonic::And => {
                match self.parse_two_regs() {
                    Ok((vx, vy)) => Ok(Instruction::And(vx, vy)),
                    Err(e) => Err(e),
                }
            },
            Mnemonic::Xor => {
                match self.parse_two_regs() {
                    Ok((vx, vy)) => Ok(Instruction::Xor(vx, vy)),
                    Err(e) => Err(e),
                }
            },
            Mnemonic::Sub => {
                match self.parse_two_regs() {
                    Ok((vx, vy)) => Ok(Instruction::Sub(vx, vy)),
                    Err(e) => Err(e),
                }
            },
            Mnemonic::Shr => {
                match self.parse_two_regs() {
                    Ok((vx, vy)) => Ok(Instruction::Shr(vx, vy)),
                    Err(e) => Err(e),
                }
            },
            Mnemonic::Subn => {
                match self.parse_two_regs() {
                    Ok((vx, vy)) => Ok(Instruction::Subn(vx, vy)),
                    Err(e) => Err(e),
                }
            },
            Mnemonic::Shl => {
                match self.parse_two_regs() {
                    Ok((vx, vy)) => Ok(Instruction::Shl(vx, vy)),
                    Err(e) => Err(e),
                }
            },
            Mnemonic::Rnd => {
                let vx = match self.parse_register() {
                    Ok(v) => v,
                    Err(e) => {
                        return Err(e);
                    },
                };
                match self.parse_token(Token::Delimeter(Delimeter::Comma)) {
                    Ok(_) => (),
                    Err(e) => {
                        return Err(e);
                    },
                };
                match self.parse_number() {
                    Ok(nn) => Ok(Instruction::Rnd(vx, nn)),
                    Err(e) => Err(e),
                }
            },
            Mnemonic::Drw => {
                let (vx, vy) = match self.parse_two_regs() {
                    Ok(p) => p,
                    Err(e) => {
                        return Err(e);
                    },
                };
                match self.parse_token(Token::Delimeter(Delimeter::Comma)) {
                    Ok(_) => (),
                    Err(e) => {
                        return Err(e);
                    },
                };
                match self.parse_number() {
                    Ok(n) => Ok(Instruction::Drw(vx, vy, n)),
                    Err(e) => Err(e),
                }
            },
            Mnemonic::Skp => {
                match self.parse_register() {
                    Ok(vx) => Ok(Instruction::Skp(vx)),
                    Err(e) => Err(e),
                }
            },
            Mnemonic::Sknp => {
                match self.parse_register() {
                    Ok(vx) => Ok(Instruction::Skpn(vx)),
                    Err(e) => Err(e),
                }
            },
        }
    }

    /// Register, comma, register.
    fn parse_two_regs(&mut self) -> (r: Result<(Register, Register), ParserError>)
        requires
            old(self).wf(),
        ensures
            final(self).wf(),
            final(self).toks() == old(self).toks(),
            (res_view(r), final(self).pos_view()) == spec_parse_two_regs(
                old(self).toks(),
                old(self).pos_view(),
            ),
    {
        let vx = match self.parse_register() {
            Ok(v) => v,
            Err(e) => {
                return Err(e);
            },
        };
        match self.parse_token(Token::Delimeter(Delimeter::Comma)) {
            Ok(_) => (),
            Err(e) => {
                return Err(e);
            },
        };
        match self.parse_register() {
            Ok(vy) => Ok((vx, vy)),
            Err(e) => Err(e),
        }
    }

    /// Register, comma, then a register or a number.
    fn parse_reg_operand(&mut self) -> (r: Result<(Register, Operand), ParserError>)
        requires
            old(self).wf(),
        ensures
            final(self).wf(),
            final(self).toks() == old(self).toks(),
            (res_view(r), final(self).pos_view()) == spec_parse_reg_operand(
                old(self).toks(),
                old(self).pos_view(),
            ),
    {
        let vx = match self.parse_register() {
            Ok(v) => v,
            Err(e) => {
                return Err(e);
            },
        };
        match self.parse_token(Token::Delimeter(Delimeter::Comma)) {
            Ok(_) => (),
            Err(e) => {
                return Err(e);
            },
        };
        match self.parse_operand() {
            Ok(o) => Ok((vx, o)),
            Err(e) => Err(e),
        }
    }

    /// Produces the next well-formed statement, skipping one token past
    /// each malformed one, or `None` when the tokens are exhausted.
    pub fn next(&mut self) -> (r: Option<Instruction>)
        requires
            old(self).wf(),
        ensures
            final(self).wf(),
            final(self).toks() == old(self).toks(),
            (r, final(self).pos_view()) == spec_parser_next(old(self).toks(), old(self).pos_view()),
    {
        while self.pos < self.tokens.len()
            invariant
                self.wf(),
                self.toks() == old(self).toks(),
                spec_parser_next(self.toks(), self.pos_view()) == spec_parser_next(
                    old(self).toks(),
                    old(self).pos_view(),
                ),
            decreases self.tokens@.len() - self.pos,
        {
            let ghost p_head = self.pos_view();
            match self.parse_instruction() {
                Ok(ins) => {
                    return Some(ins);
                },
                Err(_) => {
                    proof {
                        lemma_parse_instruction_bounds(self.toks(), p_head);
                    }
                    if self.pos < self.tokens.len() {
                        self.pos = self.pos + 1;
                    }
                },
            }
        }
        None
    }
}

} // verus!


verus! {

/// The text `message` renders for each parse failure.
pub open spec fn spec_message(e: ParserErrorV) -> Seq<char> {
    match e {
        ParserErrorV::Expected(expected, found) => "expected "@ + crate::token::spec_describe(
            expected,
        ) + ", but found "@ + crate::token::spec_describe(found),
        ParserErrorV::ExpectedMnemonic(found) => "expected a mnemonic, but found "@
            + crate::token::spec_describe(found),
        ParserErrorV::ExpectedRegister(found) => "expected a register, but found "@
            + crate::token::spec_describe(found),
        ParserErrorV::ExpectedNumber(found) => "expected a number, but found "@
            + crate::token::spec_describe(found),
        ParserErrorV::ExpectedOperand(found) => "expected a register or a number, but found "@
            + crate::token::spec_describe(found),
        ParserErrorV::InputEnded(expected) => "expected "@ + crate::token::spec_describe(expected)
            + ", but the input has ended"@,
        ParserErrorV::UnexpectedEnd => "the input ended in the middle of a statement"@,
        ParserErrorV::Unsupported(_) => "the mnemonic names the machine's hardware trap, which is not supported"@,
    }
}

impl ParserError {
    /// Renders this failure as one line of text.
    pub fn message(&self) -> (r: String)
        ensures
            r@ == spec_message(self@),
    {
        match self {
            ParserError::Expected(expected, found) => "expected ".to_owned().concat(
                expected.describe(),
            ).concat(", but found ").concat(found.describe()),
            ParserError::ExpectedMnemonic(found) => "expected a mnemonic, but found ".to_owned()
                .concat(found.describe()),
            ParserError::ExpectedRegister(found) => "expected a register, but found ".to_owned()
                .concat(found.describe()),
            ParserError::ExpectedNumber(found) => "expected a number, but found ".to_owned()
                .concat(found.describe()),
            ParserError::ExpectedOperand(found) => "expected a register or a number, but found "
                .to_owned().concat(found.describe()),
            ParserError::InputEnded(expected) => "expected ".to_owned().concat(
                expected.describe(),
            ).concat(", but the input has ended"),
            ParserError::UnexpectedEnd => "the input ended in the middle of a statement".to_owned(),
            ParserError::Unsupported(_) => "the mnemonic names the machine's hardware trap, which is not supported".to_owned(),
        }
    }
}

} // verus!
