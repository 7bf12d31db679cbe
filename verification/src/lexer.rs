//! The token stream: turns the raw bytes of an assembly source text into a
//! finite sequence of tokens. Whitespace separates tokens, `;` starts a
//! comment that runs to the end of the line, `,` is a delimiter, and a run
//! of ASCII alphanumeric bytes is read as one lexeme and classified; a
//! `0x`-prefixed lexeme is a hexadecimal literal. Anything else becomes an
//! `Unknown` token of one byte.

use vstd::prelude::*;

use crate::token::{Token, TokenV, is_ascii_digit, spec_token_of};

verus! {

pub open spec fn is_ws(c: u8) -> bool {
    c == 32 || c == 9 || c == 10 || c == 11 || c == 12 || c == 13
}

pub open spec fn is_ascii_alpha(c: u8) -> bool {
    (97 <= c <= 122) || (65 <= c <= 90)
}

pub open spec fn is_alnum(c: u8) -> bool {
    is_ascii_alpha(c) || is_ascii_digit(c)
}

pub open spec fn is_hex_digit(c: u8) -> bool {
    is_ascii_digit(c) || (97 <= c <= 102) || (65 <= c <= 70)
}

pub open spec fn hex_digit_value(c: u8) -> int {
    if is_ascii_digit(c) {
        c - 48
    } else if 97 <= c <= 102 {
        c - 87
    } else {
        c - 55
    }
}

pub open spec fn all_hex_digits(s: Seq<u8>) -> bool {
    forall|j: int| 0 <= j < s.len() ==> is_hex_digit(#[trigger] s[j])
}

/// The value of a string of hexadecimal digits, most significant first.
pub open spec fn hex_value(s: Seq<u8>) -> int
    decreases s.len(),
{
    if s.len() == 0 {
        0
    } else {
        hex_value(s.drop_last()) * 16 + hex_digit_value(s.last())
    }
}

/// Whether `s` is a hexadecimal literal that fits in sixteen bits.
pub open spec fn is_hex_u16(s: Seq<u8>) -> bool {
    s.len() > 0 && all_hex_digits(s) && hex_value(s) <= 0xFFFF
}

/// Classification of one whole lexeme: a `0x` prefix demands a hexadecimal
/// literal; otherwise the fixed tables decide; a lexeme matching nothing
/// keeps its raw bytes as an `Unknown` token.
pub open spec fn spec_classify(s: Seq<u8>) -> TokenV {
    if s.len() >= 2 && s[0] == 48 && s[1] == 120 {
        if is_hex_u16(s.skip(2)) {
            TokenV::Number(hex_value(s.skip(2)) as u16)
        } else {
            TokenV::Unknown(s)
        }
    } else {
        match spec_token_of(s) {
            Some(tv) => tv,
            None => TokenV::Unknown(s),
        }
    }
}

/// The first position at or after `i` that is not an ASCII alphanumeric
/// byte: the end of the lexeme that starts before `i`.
pub open spec fn lexeme_end(s: Seq<u8>, i: int) -> int
    decreases s.len() - i,
{
    if i < 0 || i >= s.len() || !is_alnum(s[i]) {
        i
    } else {
        lexeme_end(s, i + 1)
    }
}

/// The first position at or after `i` holding a line feed, or the end of
/// the input: where a comment stops.
pub open spec fn eol_pos(s: Seq<u8>, i: int) -> int
    decreases s.len() - i,
{
    if i < 0 || i >= s.len() || s[i] == 10 {
        i
    } else {
        eol_pos(s, i + 1)
    }
}

/// One step of scanning from position `i`: the next token and the position
/// just past it, or `None` when only whitespace and comments remain.
/// `in_comment` records that a `;` has been read on the current line.
pub open spec fn spec_next_token(s: Seq<u8>, i: int, in_comment: bool) -> Option<(TokenV, int)>
    decreases s.len() - i,
{
    if i < 0 || i >= s.len() {
        None
    } else if in_comment {
        spec_next_token(s, i + 1, s[i] != 10)
    } else if is_ws(s[i]) {
        spec_next_token(s, i + 1, false)
    } else if s[i] == 59 {
        spec_next_token(s, i + 1, true)
    } else if s[i] == 44 {
        Some((TokenV::Delimeter(crate::token::Delimeter::Comma), i + 1))
    } else if is_alnum(s[i]) {
        Some((spec_classify(s.subrange(i, lexeme_end(s, i + 1))), lexeme_end(s, i + 1)))
    } else {
        Some((TokenV::Unknown(s.subrange(i, i + 1)), i + 1))
    }
}

pub proof fn lemma_lexeme_end_bounds(s: Seq<u8>, i: int)
    requires
        0 <= i <= s.len(),
    ensures
        i <= lexeme_end(s, i) <= s.len(),
    decreases s.len() - i,
{
    if i < s.len() && is_alnum(s[i]) {
        lemma_lexeme_end_bounds(s, i + 1);
    }
}

pub proof fn lemma_eol_bounds(s: Seq<u8>, i: int)
    requires
        0 <= i <= s.len(),
    ensures
        i <= eol_pos(s, i) <= s.len(),
    decreases s.len() - i,
{
    if i < s.len() && s[i] != 10 {
        lemma_eol_bounds(s, i + 1);
    }
}

/// Scanning from inside a comment reaches the same token that scanning
/// from the end of that line does.
pub proof fn lemma_comment_skip(s: Seq<u8>, i: int)
    requires
        0 <= i <= s.len(),
    ensures
        spec_next_token(s, i, true) == spec_next_token(s, eol_pos(s, i), false),
    decreases s.len() - i,
{
    if i < s.len() && s[i] != 10 {
        lemma_comment_skip(s, i + 1);
    }
}

/// Each produced token stands strictly ahead of where scanning began, and
/// never past the end of the input.
pub proof fn lemma_next_token_advances(s: Seq<u8>, i: int, in_comment: bool)
    requires
        0 <= i <= s.len(),
    ensures
        match spec_next_token(s, i, in_comment) {
            Some((t, j)) => i < j <= s.len(),
            None => true,
        },
    decreases s.len() - i,
{
    if i < s.len() {
        if in_comment || is_ws(s[i]) || s[i] == 59 {
            lemma_next_token_advances(s, i + 1, in_comment && s[i] != 10 || !in_comment && s[i]
                == 59);
        } else if is_alnum(s[i]) {
            lemma_lexeme_end_bounds(s, i + 1);
        }
    }
}

/// The whole token sequence of the source text from position `i` on.
pub open spec fn spec_lex_from(s: Seq<u8>, i: int) -> Seq<TokenV>
    decreases s.len() - i,
    when 0 <= i <= s.len()
{
    match spec_next_token(s, i, false) {
        None => Seq::empty(),
        Some((t, j)) => {
            proof {
                lemma_next_token_advances(s, i, false);
            }
            seq![t] + spec_lex_from(s, j)
        },
    }
}

/// The whole token sequence of a source text.
pub open spec fn spec_lex(s: Seq<u8>) -> Seq<TokenV> {
    spec_lex_from(s, 0)
}

fn is_alnum_byte(c: u8) -> (r: bool)
    ensures
        r == is_alnum(c),
{
    (97 <= c && c <= 122) || (65 <= c && c <= 90) || (48 <= c && c <= 57)
}

/// The token stream over one source text, scanned byte by byte.
#[derive(Debug)]
pub struct Lexer {
    input: Vec<u8>,
    pos: usize,
}

impl Lexer {
    pub closed spec fn wf(&self) -> bool {
        self.pos <= self.input@.len()
    }

    pub closed spec fn input_view(&self) -> Seq<u8> {
        self.input@
    }

    pub closed spec fn pos_view(&self) -> int {
        self.pos as int
    }

    /// A well-formed token stream never stands past the end of its input.
    pub proof fn lemma_wf(&self)
        requires
            self.wf(),
        ensures
            0 <= self.pos_view() <= self.input_view().len(),
    {
    }

    /// Starts a token stream at the beginning of `input`.
    pub fn from(input: Vec<u8>) -> (r: Lexer)
        ensures
            r.wf(),
            r.input_view() == input@,
            r.pos_view() == 0,
    {
        Lexer { input, pos: 0 }
    }

    /// Consumes bytes up to, but not including, the end of the current
    /// line: the tail of a `;` comment.
    pub fn skip_comment(&mut self)
        requires
            old(self).wf(),
        ensures
            final(self).wf(),
            final(self).input_view() == old(self).input_view(),
            final(self).pos_view() == eol_pos(old(self).input_view(), old(self).pos_view()),
    {
        while self.pos < self.input.len() && self.input[self.pos] != 10
            invariant
                self.wf(),
                self.input@ == old(self).input@,
                eol_pos(self.input@, self.pos as int) == eol_pos(old(self).input@, old(
                    self,
                ).pos as int),
            decreases self.input@.len() - self.pos,
        {
            self.pos = self.pos + 1;
        }
    }

    /// Reads the rest of the lexeme whose first byte stands at `head`, and
    /// classifies it.
    fn lex_token(&mut self, head: usize) -> (t: Token)
        requires
            old(self).wf(),
            head < old(self).input_view().len(),
            is_alnum(old(self).input_view()[head as int]),
            old(self).pos_view() == head + 1,
        ensures
            final(self).wf(),
            final(self).input_view() == old(self).input_view(),
            final(self).pos_view() == lexeme_end(old(self).input_view(), head + 1),
            t@ == spec_classify(old(self).input_view().subrange(
                head as int,
                lexeme_end(old(self).input_view(), head + 1),
            )),
    {
        let ghost s = self.input@;
        let mut lex: Vec<u8> = Vec::new();
        lex.push(self.input[head]);
        proof {
            assert(lex@ =~= s.subrange(head as int, head + 1 as int));
        }
        while self.pos < self.input.len() && is_alnum_byte(self.input[self.pos])
            invariant
                self.wf(),
                self.input@ == s,
                head + 1 <= self.pos,
                lex@ == s.subrange(head as int, self.pos as int),
                lexeme_end(s, self.pos as int) == lexeme_end(s, head + 1),
            decreases s.len() - self.pos,
        {
            lex.push(self.input[self.pos]);
            proof {
                assert(lex@.drop_last() =~= s.subrange(head as int, self.pos as int));
                assert(lex@ =~= s.subrange(head as int, self.pos + 1 as int));
            }
            self.pos = self.pos + 1;
        }
        classify(lex)
    }

    /// Produces the next token, or `None` when the input is exhausted.
    pub fn next(&mut self) -> (r: Option<Token>)
        requires
            old(self).wf(),
        ensures
            final(self).wf(),
            final(self).input_view() == old(self).input_view(),
            0 <= final(self).pos_view() <= final(self).input_view().len(),
            match spec_next_token(old(self).input_view(), old(self).pos_view(), false) {
                Some((tv, j)) => r is Some && r->Some_0@ == tv && final(self).pos_view() == j,
                None => r is None,
            },
    {
        let ghost s = self.input@;
        let ghost p0 = self.pos as int;
        while self.pos < self.input.len()
            invariant
                self.wf(),
                self.input@ == s,
                s == old(self).input_view(),
                p0 == old(self).pos_view(),
                spec_next_token(s, self.pos as int, false) == spec_next_token(s, p0, false),
            decreases s.len() - self.pos,
        {
            let c = self.input[self.pos];
            if c == 32 || c == 9 || c == 10 || c == 11 || c == 12 || c == 13 {
                self.pos = self.pos + 1;
            } else if c == 59 {
                self.pos = self.pos + 1;
                proof {
                    lemma_comment_skip(s, self.pos as int);
                    lemma_eol_bounds(s, self.pos as int);
                }
                self.skip_comment();
            } else if c == 44 {
                self.pos = self.pos + 1;
                return Some(Token::Delimeter(crate::token::Delimeter::Comma));
            } else if (97 <= c && c <= 122) || (65 <= c && c <= 90) || (48 <= c && c <= 57) {
                let head = self.pos;
                self.pos = self.pos + 1;
                proof {
                    lemma_lexeme_end_bounds(s, head + 1);
                }
                let t = self.lex_token(head);
                return Some(t);
            } else {
                let mut raw: Vec<u8> = Vec::new();
                raw.push(c);
                self.pos = self.pos + 1;
                proof {
                    assert(raw@ =~= s.subrange(self.pos - 1, self.pos as int));
                }
                return Some(Token::Unknown(raw));
            }
        }
        None
    }
}

/// Classifies one whole lexeme, taking ownership of its bytes so an
/// unrecognized lexeme can be kept verbatim.
fn classify(lex: Vec<u8>) -> (t: Token)
    ensures
        t@ == spec_classify(lex@),
{
    if lex.len() >= 2 && lex[0] == 48 && lex[1] == 120 {
        let ghost digits = lex@.skip(2);
        if lex.len() == 2 {
            proof {
                assert(digits.len() == 0);
            }
            return Token::Unknown(lex);
        }
        let mut i: usize = 2;
        let mut acc: u32 = 0;
        let mut too_big: bool = false;
        while i < lex.len()
            invariant
                lex@.len() > 2,
                lex@[0] == 48,
                lex@[1] == 120,
                2 <= i <= lex@.len(),
                digits == lex@.skip(2),
                forall|j: int| 2 <= j < i ==> is_hex_digit(#[trigger] lex@[j]),
                too_big == (hex_value(lex@.subrange(2, i as int)) > 0xFFFF),
                !too_big ==> acc == hex_value(lex@.subrange(2, i as int)),
                acc <= 0xFFFF,
            decreases lex@.len() - i,
        {
            let c = lex[i];
            let d: u32;
            if 48 <= c && c <= 57 {
                d = (c - 48) as u32;
            } else if 97 <= c && c <= 102 {
                d = (c - 87) as u32;
            } else if 65 <= c && c <= 70 {
                d = (c - 55) as u32;
            } else {
                proof {
                    assert(!all_hex_digits(digits)) by {
                        assert(digits[i - 2] == lex@[i as int]);
                    }
                }
                return Token::Unknown(lex);
            }
            proof {
                assert(lex@.subrange(2, i + 1 as int).drop_last() =~= lex@.subrange(2, i as int));
                assert(lex@.subrange(2, i + 1 as int).last() == lex@[i as int]);
            }
            if !too_big {
                let next = acc * 16 + d;
                if next > 0xFFFF {
                    too_big = true;
                } else {
                    acc = next;
                }
            } else {
                proof {
                    let p = lex@.subrange(2, i as int);
                    assert(hex_value(lex@.subrange(2, i + 1 as int)) == hex_value(p) * 16
                        + hex_digit_value(lex@[i as int]));
                }
            }
            i = i + 1;
        }
        proof {
            assert(lex@.subrange(2, lex@.len() as int) =~= digits);
        }
        if too_big {
            Token::Unknown(lex)
        } else {
            proof {
                assert(all_hex_digits(digits)) by {
                    assert(forall|j: int| 0 <= j < digits.len() ==> digits[j] == #[trigger] lex@[j
                        + 2]);
                }
            }
            Token::Number(acc as u16)
        }
    } else {
        match Token::try_from(lex.as_slice()) {
            Ok(t) => t,
            Err(()) => Token::Unknown(lex),
        }
    }
}

} // verus!
