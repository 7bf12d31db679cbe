//! The instruction encoder: maps each abstract instruction to its
//! canonical 16-bit opcode by OR-ing the operation-class nibble with the
//! shifted register, immediate and address fields. Addresses are masked to
//! 12 bits at encode time. The assembler drives the parser and encodes
//! each statement it produces; the result is exposed both as 16-bit words
//! and as the big-endian two-byte chunks of the binary program format.

use vstd::prelude::*;

use crate::lexer::{Lexer, spec_lex};
use crate::parser::{Instruction, Parser, spec_parser_next};
use crate::token::{Mnemonic, Register, TokenV};

verus! {

/// The canonical opcode of one abstract instruction.
pub open spec fn spec_encode(instruction: Instruction) -> u16 {
    match instruction {
        Instruction::Cls => 0x00E0,
        Instruction::Ret => 0x00EE,
        Instruction::JmpAddress(address) => 0x1000 | (address & 0x0FFF),
        Instruction::Call(address) => 0x2000 | (address & 0x0FFF),
        Instruction::SeRegVal(vx, nn) => 0x3000 | ((vx.spec_index() as u16) << 8) | nn,
        Instruction::SneRegVal(vx, nn) => 0x4000 | ((vx.spec_index() as u16) << 8) | nn,
        Instruction::SeRegReg(vx, vy) => 0x5000 | ((vx.spec_index() as u16) << 8) | ((
        vy.spec_index() as u16) << 4),
        Instruction::LdRegVal(vx, nn) => 0x6000 | ((vx.spec_index() as u16) << 8) | nn,
        Instruction::AddRegVal(vx, nn) => 0x7000 | ((vx.spec_index() as u16) << 8) | nn,
        Instruction::LdRegReg(vx, vy) => 0x8000 | ((vx.spec_index() as u16) << 8) | ((
        vy.spec_index() as u16) << 4),
        Instruction::Or(vx, vy) => 0x8001 | ((vx.spec_index() as u16) << 8) | ((vy.spec_index()
            as u16) << 4),
        Instruction::And(vx, vy) => 0x8002 | ((vx.spec_index() as u16) << 8) | ((vy.spec_index()
            as u16) << 4),
        Instruction::Xor(vx, vy) => 0x8003 | ((vx.spec_index() as u16) << 8) | ((vy.spec_index()
            as u16) << 4),
        Instruction::AddRegReg(vx, vy) => 0x8004 | ((vx.spec_index() as u16) << 8) | ((
        vy.spec_index() as u16) << 4),
        Instruction::Sub(vx, vy) => 0x8005 | ((vx.spec_index() as u16) << 8) | ((vy.spec_index()
            as u16) << 4),
        Instruction::Shr(vx, vy) => 0x8006 | ((vx.spec_index() as u16) << 8) | ((vy.spec_index()
            as u16) << 4),
        Instruction::Subn(vx, vy) => 0x8007 | ((vx.spec_index() as u16) << 8) | ((vy.spec_index()
            as u16) << 4),
        Instruction::Shl(vx, vy) => 0x800E | ((vx.spec_index() as u16) << 8) | ((vy.spec_index()
            as u16) << 4),
        Instruction::SneRegReg(vx, vy) => 0x9000 | ((vx.spec_index() as u16) << 8) | ((
        vy.spec_index() as u16) << 4),
        Instruction::LdIndex(i, address) => 0xA000 | (i << 8) | (address & 0x0FFF),
        Instruction::JmpRegAddress(vx, address) => 0xB000 | ((vx.spec_index() as u16) << 8) | (
        address & 0x0FFF),
        Instruction::Rnd(vx, nn) => 0xC000 | ((vx.spec_index() as u16) << 8) | nn,
        Instruction::Drw(vx, vy, n) => 0xD000 | ((vx.spec_index() as u16) << 8) | ((vy.spec_index()
            as u16) << 4) | n,
        Instruction::Skp(vx) => 0xE09E | ((vx.spec_index() as u16) << 8),
        Instruction::Skpn(vx) => 0xE0A1 | ((vx.spec_index() as u16) << 8),
        Instruction::LdRegDelay(vx, dt) => 0xF007 | ((vx.spec_index() as u16) << 8) | (dt << 4),
        Instruction::LdRegKey(vx, key) => 0xF00A | ((vx.spec_index() as u16) << 8) | (key << 4),
        Instruction::LdDelayReg(dt, vx) => 0xF015 | ((vx.spec_index() as u16) << 8) | (dt << 4),
        Instruction::LdSoundReg(st, vx) => 0xF018 | ((vx.spec_index() as u16) << 8) | (st << 4),
        Instruction::AddIndexReg(i, vx) => 0xF01E | ((vx.spec_index() as u16) << 8) | (i << 4),
        Instruction::LdFReg(vx) => 0xF029 | ((vx.spec_index() as u16) << 8),
        Instruction::LdBReg(vx) => 0xF033 | ((vx.spec_index() as u16) << 8),
        Instruction::LdMemIndexReg(vx) => 0xF055 | ((vx.spec_index() as u16) << 8),
        Instruction::LdRegMemIndex(vx) => 0xF065 | ((vx.spec_index() as u16) << 8),
    }
}

/// Encodes one abstract instruction as its canonical opcode. Total over
/// every instruction the parser can produce, and bit-exact: every variant
/// has exactly one encoding.
pub fn encode(instruction: Instruction) -> (r: u16)
    ensures
        r == spec_encode(instruction),
{
    match instruction {
        Instruction::Cls => 0x00E0,
        Instruction::Ret => 0x00EE,
        Instruction::JmpAddress(address) => 0x1000 | (address & 0x0FFF),
        Instruction::Call(address) => 0x2000 | (address & 0x0FFF),
        Instruction::SeRegVal(vx, nn) => 0x3000 | ((vx.index() as u16) << 8) | nn,
        Instruction::SneRegVal(vx, nn) => 0x4000 | ((vx.index() as u16) << 8) | nn,
        Instruction::SeRegReg(vx, vy) => 0x5000 | ((vx.index() as u16) << 8) | ((vy.index()
            as u16) << 4),
        Instruction::LdRegVal(vx, nn) => 0x6000 | ((vx.index() as u16) << 8) | nn,
        Instruction::AddRegVal(vx, nn) => 0x7000 | ((vx.index() as u16) << 8) | nn,
        Instruction::LdRegReg(vx, vy) => 0x8000 | ((vx.index() as u16) << 8) | ((vy.index()
            as u16) << 4),
        Instruction::Or(vx, vy) => 0x8001 | ((vx.index() as u16) << 8) | ((vy.index() as u16)
            << 4),
        Instruction::And(vx, vy) => 0x8002 | ((vx.index() as u16) << 8) | ((vy.index() as u16)
            << 4),
        Instruction::Xor(vx, vy) => 0x8003 | ((vx.index() as u16) << 8) | ((vy.index() as u16)
            << 4),
        Instruction::AddRegReg(vx, vy) => 0x8004 | ((vx.index() as u16) << 8) | ((vy.index()
            as u16) << 4),
        Instruction::Sub(vx, vy) => 0x8005 | ((vx.index() as u16) << 8) | ((vy.index() as u16)
            << 4),
        Instruction::Shr(vx, vy) => 0x8006 | ((vx.index() as u16) << 8) | ((vy.index() as u16)
            << 4),
        Instruction::Subn(vx, vy) => 0x8007 | ((vx.index() as u16) << 8) | ((vy.index() as u16)
            << 4),
        Instruction::Shl(vx, vy) => 0x800E | ((vx.index() as u16) << 8) | ((vy.index() as u16)
            << 4),
        Instruction::SneRegReg(vx, vy) => 0x9000 | ((vx.index() as u16) << 8) | ((vy.index()
            as u16) << 4),
        Instruction::LdIndex(i, address) => 0xA000 | (i << 8) | (address & 0x0FFF),
        Instruction::JmpRegAddress(vx, address) => 0xB000 | ((vx.index() as u16) << 8) | (address
            & 0x0FFF),
        Instruction::Rnd(vx, nn) => 0xC000 | ((vx.index() as u16) << 8) | nn,
        Instruction::Drw(vx, vy, n) => 0xD000 | ((vx.index() as u16) << 8) | ((vy.index() as u16)
            << 4) | n,
        Instruction::Skp(vx) => 0xE09E | ((vx.index() as u16) << 8),
        Instruction::Skpn(vx) => 0xE0A1 | ((vx.index() as u16) << 8),
        Instruction::LdRegDelay(vx, dt) => 0xF007 | ((vx.index() as u16) << 8) | (dt << 4),
        Instruction::LdRegKey(vx, key) => 0xF00A | ((vx.index() as u16) << 8) | (key << 4),
        Instruction::LdDelayReg(dt, vx) => 0xF015 | ((vx.index() as u16) << 8) | (dt << 4),
        Instruction::LdSoundReg(st, vx) => 0xF018 | ((vx.index() as u16) << 8) | (st << 4),
        Instruction::AddIndexReg(i, vx) => 0xF01E | ((vx.index() as u16) << 8) | (i << 4),
        Instruction::LdFReg(vx) => 0xF029 | ((vx.index() as u16) << 8),
        Instruction::LdBReg(vx) => 0xF033 | ((vx.index() as u16) << 8),
        Instruction::LdMemIndexReg(vx) => 0xF055 | ((vx.index() as u16) << 8),
        Instruction::LdRegMemIndex(vx) => 0xF065 | ((vx.index() as u16) << 8),
    }
}

/// Parsing from position `i` never moves backwards and never runs past
/// the end; producing a statement consumes at least one token.
pub proof fn lemma_parser_next_bounds(toks: Seq<TokenV>, i: int)
    requires
        0 <= i <= toks.len(),
    ensures
        i <= spec_parser_next(toks, i).1 <= toks.len(),
        spec_parser_next(toks, i).0 is Some ==> i < spec_parser_next(toks, i).1,
    decreases toks.len() - i,
{
    if i < toks.len() {
        let (res, j) = crate::parser::spec_parse_instruction(toks, i);
        crate::parser::lemma_parse_instruction_bounds(toks, i);
        if !(res is Ok) && j < toks.len() {
            lemma_parser_next_bounds(toks, j + 1);
        }
    }
}

/// The opcodes of every well-formed statement from position `i` on, in
/// source order.
pub open spec fn spec_assemble(toks: Seq<TokenV>, i: int) -> Seq<u16>
    decreases toks.len() - i,
    when 0 <= i <= toks.len()
{
    let (o, j) = spec_parser_next(toks, i);
    match o {
        None => Seq::empty(),
        Some(ins) => {
            proof {
                lemma_parser_next_bounds(toks, i);
            }
            seq![spec_encode(ins)] + spec_assemble(toks, j)
        },
    }
}

/// The assembler over one token stream: drives the parser and encodes
/// each statement it produces.
#[derive(Debug)]
pub struct Assembler {
    parser: Parser,
}

impl Assembler {
    pub closed spec fn wf(&self) -> bool {
        self.parser.wf()
    }

    pub closed spec fn toks(&self) -> Seq<TokenV> {
        self.parser.toks()
    }

    pub closed spec fn pos_view(&self) -> int {
        self.parser.pos_view()
    }

    /// Builds an assembler over an already-built parser.
    pub fn from(parser: Parser) -> (r: Assembler)
        ensures
            r.wf() == parser.wf(),
            r.toks() == parser.toks(),
            r.pos_view() == parser.pos_view(),
    {
        Assembler { parser }
    }

    /// Builds an assembler straight from source text.
    pub fn from_source(input: Vec<u8>) -> (r: Assembler)
        ensures
            r.wf(),
            r.pos_view() == 0,
            r.toks() == spec_lex(input@),
    {
        let lexer = Lexer::from(input);
        let parser = Parser::from(lexer);
        Assembler { parser }
    }

    /// Encodes the next well-formed statement, or `None` when the tokens
    /// are exhausted.
    pub fn next(&mut self) -> (r: Option<u16>)
        requires
            old(self).wf(),
        ensures
            final(self).wf(),
            final(self).toks() == old(self).toks(),
            ({
                let (o, j) = spec_parser_next(old(self).toks(), old(self).pos_view());
                final(self).pos_view() == j && match o {
                    None => r is None,
                    Some(ins) => r == Some(spec_encode(ins)),
                }
            }),
    {
        match self.parser.next() {
            Some(ins) => Some(encode(ins)),
            None => None,
        }
    }

    /// Encodes every remaining well-formed statement, in source order.
    pub fn assemble(&mut self) -> (r: Vec<u16>)
        requires
            old(self).wf(),
        ensures
            final(self).wf(),
            r@ == spec_assemble(old(self).toks(), old(self).pos_view()),
    {
        proof {
            self.parser.lemma_wf();
        }
        let ghost toks = self.toks();
        let mut out: Vec<u16> = Vec::new();
        loop
            invariant_except_break
                self.wf(),
                self.toks() == toks,
                0 <= self.pos_view() <= toks.len(),
                out@ + spec_assemble(toks, self.pos_view()) == spec_assemble(
                    old(self).toks(),
                    old(self).pos_view(),
                ),
            ensures
                self.wf(),
                self.toks() == toks,
                out@ == spec_assemble(old(self).toks(), old(self).pos_view()),
            decreases toks.len() - self.pos_view(),
        {
            let ghost p_before = self.pos_view();
            match self.next() {
                Some(word) => {
                    proof {
                        lemma_parser_next_bounds(toks, p_before);
                    }
                    out.push(word);
                    proof {
                        assert(out@ + spec_assemble(toks, self.pos_view()) =~= spec_assemble(
                            old(self).toks(),
                            old(self).pos_view(),
                        ));
                    }
                },
                None => {
                    proof {
                        lemma_parser_next_bounds(toks, p_before);
                        assert(out@ =~= spec_assemble(old(self).toks(), old(self).pos_view()));
                    }
                    break;
                },
            }
        }
        out
    }
}

/// The high byte of a 16-bit word.
pub open spec fn hi_byte(w: u16) -> u8 {
    (w >> 8) as u8
}

/// The low byte of a 16-bit word.
pub open spec fn lo_byte(w: u16) -> u8 {
    (w & 0xFF) as u8
}

/// Lays a sequence of opcodes out as the flat big-endian byte stream of
/// the binary program format.
pub fn program_bytes(opcodes: &Vec<u16>) -> (r: Vec<u8>)
    ensures
        r@.len() == 2 * opcodes@.len(),
        forall|k: int|
            0 <= k < opcodes@.len() ==> r@[2 * k] == hi_byte(#[trigger] opcodes@[k]) && r@[2 * k
                + 1] == lo_byte(opcodes@[k]),
{
    let mut r: Vec<u8> = Vec::new();
    let mut i: usize = 0;
    while i < opcodes.len()
        invariant
            i <= opcodes@.len(),
            r@.len() == 2 * i,
            forall|k: int|
                0 <= k < i ==> r@[2 * k] == hi_byte(#[trigger] opcodes@[k]) && r@[2 * k + 1]
                    == lo_byte(opcodes@[k]),
        decreases opcodes@.len() - i,
    {
        let w = opcodes[i];
        r.push((w >> 8) as u8);
        r.push((w & 0xFF) as u8);
        i = i + 1;
    }
    r
}

} // verus!

verus! {

/// The operation-class bits of each mnemonic that takes the
/// register+register operand shape.
pub open spec fn reg_reg_class(m: Mnemonic) -> u16 {
    match m {
        Mnemonic::Se => 0x5000,
        Mnemonic::Sne => 0x9000,
        Mnemonic::Ld => 0x8000,
        Mnemonic::Add => 0x8004,
        Mnemonic::Or => 0x8001,
        Mnemonic::And => 0x8002,
        Mnemonic::Xor => 0x8003,
        Mnemonic::Sub => 0x8005,
        Mnemonic::Shr => 0x8006,
        Mnemonic::Subn => 0x8007,
        Mnemonic::Shl => 0x800E,
        _ => 0,
    }
}

/// Law: for every supported mnemonic with register+register operands,
/// parsing the statement and encoding the result round-trips to exactly
/// the reference bit pattern: the class bits OR-ed with the two register
/// indices in the `x` and `y` nibbles.
pub proof fn lemma_reg_reg_round_trip(m: Mnemonic, x: Register, y: Register)
    requires
        m == Mnemonic::Se || m == Mnemonic::Sne || m == Mnemonic::Ld || m == Mnemonic::Add || m
            == Mnemonic::Or || m == Mnemonic::And || m == Mnemonic::Xor || m == Mnemonic::Sub || m
            == Mnemonic::Shr || m == Mnemonic::Subn || m == Mnemonic::Shl,
    ensures
        ({
            let toks = seq![
                TokenV::Mnemonic(m),
                TokenV::Register(x),
                TokenV::Delimeter(crate::token::Delimeter::Comma),
                TokenV::Register(y),
            ];
            let (res, j) = crate::parser::spec_parse_instruction(toks, 0);
            &&& j == 4
            &&& res is Ok
            &&& spec_encode(res->Ok_0) == reg_reg_class(m) | ((x.spec_index() as u16) << 8) | ((
            y.spec_index() as u16) << 4)
        }),
{
}

} // verus!
