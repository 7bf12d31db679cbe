//! Lexical tokens of the assembly language: delimiters, mnemonics, numeric
//! literals and register names, together with the classification rules that
//! turn a lexeme (a run of ASCII alphanumeric bytes) into a token.

use vstd::prelude::*;

verus! {

/// A punctuation token; the only one the language has is the comma between
/// operands.
#[derive(Debug, Clone, Copy, PartialEq, Eq, Structural)]
pub enum Delimeter {
    Comma,
}

/// An instruction name as it appears in assembly source.
#[derive(Debug, Clone, Copy, PartialEq, Eq, Structural)]
pub enum Mnemonic {
    Cls,
    Ret,
    Sys,
    Jmp,
    Call,
    Se,
    Sne,
    Ld,
    Add,
    Or,
    And,
    Xor,
    Sub,
    Shr,
    Subn,
    Shl,
    Rnd,
    Drw,
    Skp,
    Sknp,
}

/// One of the sixteen general-purpose registers `v0` .. `vf`.
#[derive(Debug, Clone, Copy, PartialEq, Eq, Structural)]
pub enum Register {
    V0,
    V1,
    V2,
    V3,
    V4,
    V5,
    V6,
    V7,
    V8,
    V9,
    Va,
    Vb,
    Vc,
    Vd,
    Ve,
    Vf,
}

impl Register {
    /// The 4-bit index this register occupies in an opcode.
    pub open spec fn spec_index(self) -> u8 {
        match self {
            Register::V0 => 0,
            Register::V1 => 1,
            Register::V2 => 2,
            Register::V3 => 3,
            Register::V4 => 4,
            Register::V5 => 5,
            Register::V6 => 6,
            Register::V7 => 7,
            Register::V8 => 8,
            Register::V9 => 9,
            Register::Va => 10,
            Register::Vb => 11,
            Register::Vc => 12,
            Register::Vd => 13,
            Register::Ve => 14,
            Register::Vf => 15,
        }
    }

    /// The 4-bit index this register occupies in an opcode.
    pub fn index(self) -> (r: u8)
        ensures
            r == self.spec_index(),
            r < 16,
    {
        match self {
            Register::V0 => 0,
            Register::V1 => 1,
            Register::V2 => 2,
            Register::V3 => 3,
            Register::V4 => 4,
            Register::V5 => 5,
            Register::V6 => 6,
            Register::V7 => 7,
            Register::V8 => 8,
            Register::V9 => 9,
            Register::Va => 10,
            Register::Vb => 11,
            Register::Vc => 12,
            Register::Vd => 13,
            Register::Ve => 14,
            Register::Vf => 15,
        }
    }
}

/// One lexical token. `Unknown` carries the raw bytes of a lexeme that
/// matched no other rule, so the parser can report or skip it without the
/// token stream aborting.
#[derive(Debug)]
pub enum Token {
    Delimeter(Delimeter),
    Mnemonic(Mnemonic),
    Number(u16),
    Register(Register),
    Unknown(Vec<u8>),
}

/// The mathematical value of a [`Token`]: the same shape with the raw bytes
/// of an `Unknown` lexeme abstracted to a sequence.
pub ghost enum TokenV {
    Delimeter(Delimeter),
    Mnemonic(Mnemonic),
    Number(u16),
    Register(Register),
    Unknown(Seq<u8>),
}

impl View for Token {
    type V = TokenV;

    open spec fn view(&self) -> TokenV {
        match self {
            Token::Delimeter(d) => TokenV::Delimeter(*d),
            Token::Mnemonic(m) => TokenV::Mnemonic(*m),
            Token::Number(n) => TokenV::Number(*n),
            Token::Register(r) => TokenV::Register(*r),
            Token::Unknown(s) => TokenV::Unknown(s@),
        }
    }
}

/// Byte-for-byte copy of a lexeme.
fn clone_bytes(v: &Vec<u8>) -> (r: Vec<u8>)
    ensures
        r@ == v@,
{
    let mut r: Vec<u8> = Vec::new();
    let mut i: usize = 0;
    while i < v.len()
        invariant
            i <= v.len(),
            r@ == v@.subrange(0, i as int),
        decreases v.len() - i,
    {
        r.push(v[i]);
        proof {
            assert(r@ =~= v@.subrange(0, i + 1 as int));
        }
        i = i + 1;
    }
    proof {
        assert(r@ =~= v@);
    }
    r
}

impl Clone for Token {
    fn clone(&self) -> (r: Self)
        ensures
            r@ == self@,
    {
        match self {
            Token::Delimeter(d) => Token::Delimeter(*d),
            Token::Mnemonic(m) => Token::Mnemonic(*m),
            Token::Number(n) => Token::Number(*n),
            Token::Register(r) => Token::Register(*r),
            Token::Unknown(s) => Token::Unknown(clone_bytes(s)),
        }
    }
}

impl PartialEq for Token {
    fn eq(&self, other: &Token) -> (r: bool) {
        match (self, other) {
            (Token::Delimeter(a), Token::Delimeter(b)) => *a == *b,
            (Token::Mnemonic(a), Token::Mnemonic(b)) => *a == *b,
            (Token::Number(a), Token::Number(b)) => *a == *b,
            (Token::Register(a), Token::Register(b)) => *a == *b,
            (Token::Unknown(a), Token::Unknown(b)) => {
                let mut i: usize = 0;
                if a.len() != b.len() {
                    return false;
                }
                while i < a.len()
                    invariant
                        self@ == TokenV::Unknown(a@),
                        other@ == TokenV::Unknown(b@),
                        a@.len() == b@.len(),
                        i <= a@.len(),
                        forall|j: int| 0 <= j < i ==> a@[j] == b@[j],
                    decreases a@.len() - i,
                {
                    if a[i] != b[i] {
                        proof {
                            assert(a@ != b@) by {
                                assert(a@[i as int] != b@[i as int]);
                            }
                        }
                        return false;
                    }
                    i = i + 1;
                }
                proof {
                    assert(a@ =~= b@);
                }
                true
            },
            _ => false,
        }
    }
}

impl vstd::std_specs::cmp::PartialEqSpecImpl for Token {
    open spec fn obeys_eq_spec() -> bool {
        true
    }

    open spec fn eq_spec(&self, other: &Token) -> bool {
        self@ == other@
    }
}

pub open spec fn is_ascii_digit(c: u8) -> bool {
    48 <= c <= 57
}

pub open spec fn all_digits(s: Seq<u8>) -> bool {
    forall|j: int| 0 <= j < s.len() ==> is_ascii_digit(#[trigger] s[j])
}

/// The value of a string of decimal digits, most significant first.
pub open spec fn dec_value(s: Seq<u8>) -> int
    decreases s.len(),
{
    if s.len() == 0 {
        0
    } else {
        dec_value(s.drop_last()) * 10 + (s.last() - 48)
    }
}

/// Whether `s` is a decimal literal that fits in sixteen bits.
pub open spec fn is_dec_u16(s: Seq<u8>) -> bool {
    s.len() > 0 && all_digits(s) && dec_value(s) <= 0xFFFF
}

pub open spec fn spec_delimeter_of(s: Seq<u8>) -> Option<Delimeter> {
    if s.len() == 1 && s[0] == 44 {
        Some(Delimeter::Comma)
    } else {
        None
    }
}

pub open spec fn spec_mnemonic_of(s: Seq<u8>) -> Option<Mnemonic> {
    if s.len() == 3 && s[0] == 99 && s[1] == 108 && s[2] == 115 {
        Some(Mnemonic::Cls)
    } else if s.len() == 3 && s[0] == 114 && s[1] == 101 && s[2] == 116 {
        Some(Mnemonic::Ret)
    } else if s.len() == 3 && s[0] == 115 && s[1] == 121 && s[2] == 115 {
        Some(Mnemonic::Sys)
    } else if s.len() == 3 && s[0] == 106 && s[1] == 109 && s[2] == 112 {
        Some(Mnemonic::Jmp)
    } else if s.len() == 4 && s[0] == 99 && s[1] == 97 && s[2] == 108 && s[3] == 108 {
        Some(Mnemonic::Call)
    } else if s.len() == 2 && s[0] == 115 && s[1] == 101 {
        Some(Mnemonic::Se)
    } else if s.len() == 3 && s[0] == 115 && s[1] == 110 && s[2] == 101 {
        Some(Mnemonic::Sne)
    } else if s.len() == 2 && s[0] == 108 && s[1] == 100 {
        Some(Mnemonic::Ld)
    } else if s.len() == 3 && s[0] == 97 && s[1] == 100 && s[2] == 100 {
        Some(Mnemonic::Add)
    } else if s.len() == 2 && s[0] == 111 && s[1] == 114 {
        Some(Mnemonic::Or)
    } else if s.len() == 3 && s[0] == 97 && s[1] == 110 && s[2] == 100 {
        Some(Mnemonic::And)
    } else if s.len() == 3 && s[0] == 120 && s[1] == 111 && s[2] == 114 {
        Some(Mnemonic::Xor)
    } else if s.len() == 3 && s[0] == 115 && s[1] == 117 && s[2] == 98 {
        Some(Mnemonic::Sub)
    } else if s.len() == 3 && s[0] == 115 && s[1] == 104 && s[2] == 114 {
        Some(Mnemonic::Shr)
    } else if s.len() == 4 && s[0] == 115 && s[1] == 117 && s[2] == 98 && s[3] == 110 {
        Some(Mnemonic::Subn)
    } else if s.len() == 3 && s[0] == 115 && s[1] == 104 && s[2] == 108 {
        Some(Mnemonic::Shl)
    } else if s.len() == 3 && s[0] == 114 && s[1] == 110 && s[2] == 100 {
        Some(Mnemonic::Rnd)
    } else if s.len() == 3 && s[0] == 100 && s[1] == 114 && s[2] == 119 {
        Some(Mnemonic::Drw)
    } else if s.len() == 3 && s[0] == 115 && s[1] == 107 && s[2] == 112 {
        Some(Mnemonic::Skp)
    } else if s.len() == 4 && s[0] == 115 && s[1] == 107 && s[2] == 110 && s[3] == 112 {
        Some(Mnemonic::Sknp)
    } else {
        None
    }
}

pub open spec fn spec_register_of(s: Seq<u8>) -> Option<Register> {
    if s.len() == 2 && s[0] == 118 {
        if s[1] == 48 {
            Some(Register::V0)
        } else if s[1] == 49 {
            Some(Register::V1)
        } else if s[1] == 50 {
            Some(Register::V2)
        } else if s[1] == 51 {
            Some(Register::V3)
        } else if s[1] == 52 {
            Some(Register::V4)
        } else if s[1] == 53 {
            Some(Register::V5)
        } else if s[1] == 54 {
            Some(Register::V6)
        } else if s[1] == 55 {
            Some(Register::V7)
        } else if s[1] == 56 {
            Some(Register::V8)
        } else if s[1] == 57 {
            Some(Register::V9)
        } else if s[1] == 97 {
            Some(Register::Va)
        } else if s[1] == 98 {
            Some(Register::Vb)
        } else if s[1] == 99 {
            Some(Register::Vc)
        } else if s[1] == 100 {
            Some(Register::Vd)
        } else if s[1] == 101 {
            Some(Register::Ve)
        } else if s[1] == 102 {
            Some(Register::Vf)
        } else {
            None
        }
    } else {
        None
    }
}

/// Classification of a lexeme that does not carry a `0x` prefix, in the
/// order the rules are tried: delimiter, mnemonic, decimal literal,
/// register name.
pub open spec fn spec_token_of(s: Seq<u8>) -> Option<TokenV> {
    if spec_delimeter_of(s) is Some {
        Some(TokenV::Delimeter(spec_delimeter_of(s)->Some_0))
    } else if spec_mnemonic_of(s) is Some {
        Some(TokenV::Mnemonic(spec_mnemonic_of(s)->Some_0))
    } else if is_dec_u16(s) {
        Some(TokenV::Number(dec_value(s) as u16))
    } else if spec_register_of(s) is Some {
        Some(TokenV::Register(spec_register_of(s)->Some_0))
    } else {
        None
    }
}

impl Delimeter {
    /// Looks a lexeme up in the delimiter table.
    pub fn try_from(value: &[u8]) -> (r: Result<Delimeter, ()>)
        ensures
            match spec_delimeter_of(value@) {
                Some(d) => r == Ok::<Delimeter, ()>(d),
                None => r is Err,
            },
    {
        if value.len() == 1 && value[0] == 44 {
            Ok(Delimeter::Comma)
        } else {
            Err(())
        }
    }
}

impl Mnemonic {
    /// Looks a lexeme up in the mnemonic table.
    pub fn try_from(value: &[u8]) -> (r: Result<Mnemonic, ()>)
        ensures
            match spec_mnemonic_of(value@) {
                Some(m) => r == Ok::<Mnemonic, ()>(m),
                None => r is Err,
            },
    {
        let n = value.len();
        if n == 3 && value[0] == 99 && value[1] == 108 && value[2] == 115 {
            Ok(Mnemonic::Cls)
        } else if n == 3 && value[0] == 114 && value[1] == 101 && value[2] == 116 {
            Ok(Mnemonic::Ret)
        } else if n == 3 && value[0] == 115 && value[1] == 121 && value[2] == 115 {
            Ok(Mnemonic::Sys)
        } else if n == 3 && value[0] == 106 && value[1] == 109 && value[2] == 112 {
            Ok(Mnemonic::Jmp)
        } else if n == 4 && value[0] == 99 && value[1] == 97 && value[2] == 108 && value[3]
            == 108 {
            Ok(Mnemonic::Call)
        } else if n == 2 && value[0] == 115 && value[1] == 101 {
            Ok(Mnemonic::Se)
        } else if n == 3 && value[0] == 115 && value[1] == 110 && value[2] == 101 {
            Ok(Mnemonic::Sne)
        } else if n == 2 && value[0] == 108 && value[1] == 100 {
            Ok(Mnemonic::Ld)
        } else if n == 3 && value[0] == 97 && value[1] == 100 && value[2] == 100 {
            Ok(Mnemonic::Add)
        } else if n == 2 && value[0] == 111 && value[1] == 114 {
            Ok(Mnemonic::Or)
        } else if n == 3 && value[0] == 97 && value[1] == 110 && value[2] == 100 {
            Ok(Mnemonic::And)
        } else if n == 3 && value[0] == 120 && value[1] == 111 && value[2] == 114 {
            Ok(Mnemonic::Xor)
        } else if n == 3 && value[0] == 115 && value[1] == 117 && value[2] == 98 {
            Ok(Mnemonic::Sub)
        } else if n == 3 && value[0] == 115 && value[1] == 104 && value[2] == 114 {
            Ok(Mnemonic::Shr)
        } else if n == 4 && value[0] == 115 && value[1] == 117 && value[2] == 98 && value[3]
            == 110 {
            Ok(Mnemonic::Subn)
        } else if n == 3 && value[0] == 115 && value[1] == 104 && value[2] == 108 {
            Ok(Mnemonic::Shl)
        } else if n == 3 && value[0] == 114 && value[1] == 110 && value[2] == 100 {
            Ok(Mnemonic::Rnd)
        } else if n == 3 && value[0] == 100 && value[1] == 114 && value[2] == 119 {
            Ok(Mnemonic::Drw)
        } else if n == 3 && value[0] == 115 && value[1] == 107 && value[2] == 112 {
            Ok(Mnemonic::Skp)
        } else if n == 4 && value[0] == 115 && value[1] == 107 && value[2] == 110 && value[3]
            == 112 {
            Ok(Mnemonic::Sknp)
        } else {
            Err(())
        }
    }
}

impl Register {
    /// Looks a lexeme up in the register-name table (`v0` .. `vf`,
    /// lowercase).
    pub fn try_from(value: &[u8]) -> (r: Result<Register, ()>)
        ensures
            match spec_register_of(value@) {
                Some(reg) => r == Ok::<Register, ()>(reg),
                None => r is Err,
            },
    {
        if value.len() != 2 || value[0] != 118 {
            return Err(());
        }
        let c = value[1];
        if c == 48 {
            Ok(Register::V0)
        } else if c == 49 {
            Ok(Register::V1)
        } else if c == 50 {
            Ok(Register::V2)
        } else if c == 51 {
            Ok(Register::V3)
        } else if c == 52 {
            Ok(Register::V4)
        } else if c == 53 {
            Ok(Register::V5)
        } else if c == 54 {
            Ok(Register::V6)
        } else if c == 55 {
            Ok(Register::V7)
        } else if c == 56 {
            Ok(Register::V8)
        } else if c == 57 {
            Ok(Register::V9)
        } else if c == 97 {
            Ok(Register::Va)
        } else if c == 98 {
            Ok(Register::Vb)
        } else if c == 99 {
            Ok(Register::Vc)
        } else if c == 100 {
            Ok(Register::Vd)
        } else if c == 101 {
            Ok(Register::Ve)
        } else if c == 102 {
            Ok(Register::Vf)
        } else {
            Err(())
        }
    }
}

/// Parses a run of decimal digits as a 16-bit value; `None` when a byte is
/// not a digit, the run is empty, or the value does not fit.
pub fn parse_dec_u16(s: &[u8]) -> (r: Option<u16>)
    ensures
        match r {
            Some(v) => is_dec_u16(s@) && v == dec_value(s@),
            None => !is_dec_u16(s@),
        },
{
    if s.len() == 0 {
        return None;
    }
    let mut i: usize = 0;
    let mut acc: u32 = 0;
    let mut too_big: bool = false;
    while i < s.len()
        invariant
            0 < s@.len(),
            i <= s@.len(),
            forall|j: int| 0 <= j < i ==> is_ascii_digit(#[trigger] s@[j]),
            too_big == (dec_value(s@.subrange(0, i as int)) > 0xFFFF),
            !too_big ==> acc == dec_value(s@.subrange(0, i as int)),
            acc <= 0xFFFF,
        decreases s@.len() - i,
    {
        let c = s[i];
        if c < 48 || c > 57 {
            return None;
        }
        let d = (c - 48) as u32;
        proof {
            assert(s@.subrange(0, i + 1 as int).drop_last() =~= s@.subrange(0, i as int));
            assert(s@.subrange(0, i + 1 as int).last() == s@[i as int]);
        }
        if !too_big {
            let next = acc * 10 + d;
            if next > 0xFFFF {
                too_big = true;
            } else {
                acc = next;
            }
        } else {
            proof {
                let p = s@.subrange(0, i as int);
                assert(dec_value(s@.subrange(0, i + 1 as int)) == dec_value(p) * 10 + (s@[i as int]
                    - 48));
            }
        }
        i = i + 1;
    }
    proof {
        assert(s@.subrange(0, s@.len() as int) =~= s@);
    }
    if too_big {
        None
    } else {
        Some(acc as u16)
    }
}

impl Token {
    /// Classifies a lexeme against the fixed tables, in the order the
    /// language fixes: delimiter, mnemonic, decimal literal, register name.
    pub fn try_from(value: &[u8]) -> (r: Result<Token, ()>)
        ensures
            match spec_token_of(value@) {
                Some(tv) => r is Ok && r->Ok_0@ == tv,
                None => r is Err,
            },
    {
        if let Ok(d) = Delimeter::try_from(value) {
            Ok(Token::Delimeter(d))
        } else if let Ok(m) = Mnemonic::try_from(value) {
            Ok(Token::Mnemonic(m))
        } else if let Some(n) = parse_dec_u16(value) {
            Ok(Token::Number(n))
        } else if let Ok(reg) = Register::try_from(value) {
            Ok(Token::Register(reg))
        } else {
            Err(())
        }
    }
}

/// A short description of a token's kind, for parse failure messages.
pub open spec fn spec_describe(t: TokenV) -> Seq<char> {
    match t {
        TokenV::Delimeter(_) => "a comma"@,
        TokenV::Mnemonic(_) => "a mnemonic"@,
        TokenV::Number(_) => "a number"@,
        TokenV::Register(_) => "a register name"@,
        TokenV::Unknown(_) => "an unrecognized lexeme"@,
    }
}

impl Token {
    /// A short description of this token's kind, for parse failure
    /// messages.
    pub fn describe(&self) -> (r: &'static str)
        ensures
            r@ == spec_describe(self@),
    {
        match self {
            Token::Delimeter(_) => "a comma",
            Token::Mnemonic(_) => "a mnemonic",
            Token::Number(_) => "a number",
            Token::Register(_) => "a register name",
            Token::Unknown(_) => "an unrecognized lexeme",
        }
    }
}

} // verus!
