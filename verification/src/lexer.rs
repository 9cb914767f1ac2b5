//! The executable scanner: a byte cursor over an owned input buffer that
//! produces one classified token per `next_token` call. Every call is
//! proved to return exactly the token and cursor position that the
//! scanning model assigns.

use vstd::prelude::*;
use vstd::string::StrSliceExecFns;

use crate::model::B_COLON;
use crate::model::B_COMMA;
use crate::model::B_DOT;
use crate::model::B_EQ;
use crate::model::B_GT;
use crate::model::B_LBRACE;
use crate::model::B_LPAREN;
use crate::model::B_MINUS;
use crate::model::B_NINE;
use crate::model::B_PLUS;
use crate::model::B_RBRACE;
use crate::model::B_RPAREN;
use crate::model::B_SEMI;
use crate::model::B_UNDERSCORE;
use crate::model::B_UPPER_A;
use crate::model::B_UPPER_Z;
use crate::model::B_LOWER_A;
use crate::model::B_LOWER_Z;
use crate::model::B_ZERO;
use crate::model::B_SPACE;
use crate::model::B_TAB;
use crate::model::B_LF;
use crate::model::B_FF;
use crate::model::B_CR;
use crate::model::colon_set;
use crate::model::digits_end;
use crate::model::is_digit_byte;
use crate::model::is_word_byte;
use crate::model::is_word_start_byte;
use crate::model::is_ws_byte;
use crate::model::lemma_progress;
use crate::model::match_end;
use crate::model::minus_set;
use crate::model::next_token_model;
use crate::model::period_set;
use crate::model::plus_set;
use crate::model::text;
use crate::model::word_end;
use crate::model::ws_end;
use crate::token::Token;
use crate::token::word_token;

verus! {

/// The scanner. It owns the input buffer and a read cursor; repeated
/// `next_token` calls walk the cursor forward until the end-of-input
/// token is returned, after which further calls idempotently return it
/// again.
pub struct Lexer {
    position: usize,
    read_position: usize,
    ch: u8,
    input: Vec<u8>,
}

impl Lexer {
    /// The owned input buffer, fixed for the scanner's lifetime.
    pub closed spec fn buf(self) -> Seq<u8> {
        self.input@
    }

    /// The index of the byte currently under the cursor.
    pub closed spec fn pos(self) -> int {
        self.position as int
    }

    /// The cursor invariant: the read position is one past the current
    /// position, and the current byte is the byte under the cursor, or
    /// the zero sentinel once the cursor has passed the end of input.
    pub closed spec fn wf(self) -> bool {
        &&& self.input@.len() < usize::MAX
        &&& self.position <= self.input@.len()
        &&& self.read_position == self.position + 1
        &&& self.ch == (if self.position < self.input@.len() {
            self.input@[self.position as int]
        } else {
            0u8
        })
    }

    /// Builds a scanner over the whole input text, with the cursor on the
    /// first byte. The buffer the scanner owns holds the text's bytes.
    pub fn new(input: String) -> (lex: Lexer)
        requires
            vstd::utf8::encode_utf8(input@).len() < usize::MAX,
        ensures
            lex.wf(),
            lex.buf() == vstd::utf8::encode_utf8(input@),
            lex.pos() == 0,
    {
        let bytes = input.as_str().as_bytes_vec();
        let mut lex = Lexer { position: 0, read_position: 0, ch: 0, input: bytes };
        lex.read_char();
        lex
    }

    /// Advances the cursor by one byte, loading the byte now under it, or
    /// the zero sentinel at the end of input.
    fn read_char(&mut self)
        requires
            old(self).input@.len() < usize::MAX,
            old(self).read_position <= old(self).input@.len(),
        ensures
            final(self).input@ == old(self).input@,
            final(self).position == old(self).read_position,
            final(self).read_position == old(self).read_position + 1,
            final(self).ch == (if old(self).read_position < old(self).input@.len() {
                old(self).input@[old(self).read_position as int]
            } else {
                0u8
            }),
    {
        if self.read_position >= self.input.len() {
            self.ch = 0;
        } else {
            self.ch = self.input[self.read_position];
        }
        self.position = self.read_position;
        self.read_position = self.read_position + 1;
    }

    /// Moves the cursor past every whitespace byte under it.
    fn skip_whitespace(&mut self)
        requires
            old(self).wf(),
        ensures
            final(self).wf(),
            final(self).buf() == old(self).buf(),
            final(self).pos() == ws_end(old(self).buf(), old(self).pos()),
    {
        while is_whitespace(self.ch)
            invariant
                self.wf(),
                self.buf() == old(self).buf(),
                ws_end(self.buf(), self.pos()) == ws_end(old(self).buf(), old(self).pos()),
            decreases self.buf().len() - self.pos(),
        {
            self.read_char();
        }
    }

    /// Consumes the maximal identifier run under the cursor and returns
    /// its text.
    fn read_ident(&mut self) -> (w: String)
        requires
            old(self).wf(),
            old(self).pos() < old(self).buf().len(),
            is_word_start_byte(old(self).buf()[old(self).pos()]),
        ensures
            final(self).wf(),
            final(self).buf() == old(self).buf(),
            final(self).pos() == word_end(old(self).buf(), old(self).pos() + 1),
            w@ == text(old(self).buf(), old(self).pos(), final(self).pos()),
    {
        let start = self.position;
        self.read_char();
        while is_word_char(self.ch)
            invariant
                self.wf(),
                self.buf() == old(self).buf(),
                start < self.pos() <= self.buf().len(),
                word_end(self.buf(), self.pos()) == word_end(old(self).buf(), old(self).pos() + 1),
            decreases self.buf().len() - self.pos(),
        {
            self.read_char();
        }
        let p = self.position;
        substring(&self.input, start, p)
    }

    /// Consumes the maximal run of bytes equal to `match_byte` under the
    /// cursor and returns its text.
    fn read_match(&mut self, match_byte: u8) -> (w: String)
        requires
            old(self).wf(),
            match_byte != 0,
        ensures
            final(self).wf(),
            final(self).buf() == old(self).buf(),
            final(self).pos() == match_end(old(self).buf(), old(self).pos(), seq![match_byte]),
            w@ == text(old(self).buf(), old(self).pos(), final(self).pos()),
            final(self).pos() >= old(self).pos(),
    {
        let start = self.position;
        while self.ch == match_byte
            invariant
                self.wf(),
                self.buf() == old(self).buf(),
                match_byte != 0,
                start <= self.pos() <= self.buf().len(),
                match_end(self.buf(), self.pos(), seq![match_byte]) == match_end(
                    old(self).buf(),
                    old(self).pos(),
                    seq![match_byte],
                ),
            decreases self.buf().len() - self.pos(),
        {
            proof {
                assert(seq![match_byte].contains(self.ch)) by {
                    assert(seq![match_byte][0] == self.ch);
                }
            }
            self.read_char();
        }
        proof {
            if self.pos() < self.buf().len() {
                assert(!seq![match_byte].contains(self.buf()[self.pos()])) by {
                    assert(forall|i: int|
                        0 <= i < seq![match_byte].len() ==> seq![match_byte][i] == match_byte);
                }
            }
        }
        let p = self.position;
        substring(&self.input, start, p)
    }

    /// Consumes the maximal run of bytes drawn from `match_bytes` under
    /// the cursor and returns its text.
    fn read_match_any(&mut self, match_bytes: &[u8]) -> (w: String)
        requires
            old(self).wf(),
            !match_bytes@.contains(0u8),
        ensures
            final(self).wf(),
            final(self).buf() == old(self).buf(),
            final(self).pos() == match_end(old(self).buf(), old(self).pos(), match_bytes@),
            w@ == text(old(self).buf(), old(self).pos(), final(self).pos()),
            final(self).pos() >= old(self).pos(),
    {
        let start = self.position;
        while contains_byte(match_bytes, self.ch)
            invariant
                self.wf(),
                self.buf() == old(self).buf(),
                !match_bytes@.contains(0u8),
                start <= self.pos() <= self.buf().len(),
                match_end(self.buf(), self.pos(), match_bytes@) == match_end(
                    old(self).buf(),
                    old(self).pos(),
                    match_bytes@,
                ),
            decreases self.buf().len() - self.pos(),
        {
            self.read_char();
        }
        let p = self.position;
        substring(&self.input, start, p)
    }

    /// Consumes the maximal digit run under the cursor and returns its
    /// text.
    fn read_int(&mut self) -> (w: String)
        requires
            old(self).wf(),
        ensures
            final(self).wf(),
            final(self).buf() == old(self).buf(),
            final(self).pos() == digits_end(old(self).buf(), old(self).pos()),
            w@ == text(old(self).buf(), old(self).pos(), final(self).pos()),
    {
        let start = self.position;
        while is_digit_char(self.ch)
            invariant
                self.wf(),
                self.buf() == old(self).buf(),
                start <= self.pos() <= self.buf().len(),
                digits_end(self.buf(), self.pos()) == digits_end(old(self).buf(), old(self).pos()),
            decreases self.buf().len() - self.pos(),
        {
            self.read_char();
        }
        let p = self.position;
        substring(&self.input, start, p)
    }

    /// Produces the next token and moves the cursor past it. The token
    /// and the new cursor position are exactly what the scanning model
    /// assigns to the old position; in particular every call that does
    /// not return the end-of-input token moves the cursor strictly
    /// forward, and at the end of input the call returns the end-of-input
    /// token again without moving.
    pub fn next_token(&mut self) -> (t: Token)
        requires
            old(self).wf(),
        ensures
            final(self).wf(),
            final(self).buf() == old(self).buf(),
            t@ == next_token_model(old(self).buf(), old(self).pos()).0,
            final(self).pos() == next_token_model(old(self).buf(), old(self).pos()).1,
            !(t@ is Eof) ==> final(self).pos() > old(self).pos(),
    {
        proof {
            lemma_progress(old(self).buf(), old(self).pos());
        }
        self.skip_whitespace();
        if self.ch == 0 {
            return Token::Eof;
        }
        let tok: Token;
        if self.ch == B_LBRACE {
            tok = Token::LSquirly;
        } else if self.ch == B_RBRACE {
            tok = Token::RSquirly;
        } else if self.ch == B_LPAREN {
            tok = Token::Lparen;
        } else if self.ch == B_RPAREN {
            tok = Token::Rparen;
        } else if self.ch == B_COMMA {
            tok = Token::Comma;
        } else if self.ch == B_SEMI {
            tok = Token::Semicolon;
        } else if self.ch == B_PLUS {
            let mut mb: Vec<u8> = Vec::new();
            mb.push(B_PLUS);
            mb.push(B_EQ);
            proof {
                assert(mb@ =~= plus_set());
            }
            let w = self.read_match_any(mb.as_slice());
            if is_word(&w, "+=") {
                return Token::PlusEqual;
            } else {
                return Token::Plus;
            }
        } else if self.ch == B_EQ {
            tok = Token::Equal;
        } else if is_word_start(self.ch) {
            let w = self.read_ident();
            return keyword_or_ident(w);
        } else if is_digit_char(self.ch) {
            return Token::Int(self.read_int());
        } else if self.ch == B_DOT {
            let mut mb: Vec<u8> = Vec::new();
            mb.push(B_DOT);
            mb.push(B_EQ);
            proof {
                assert(mb@ =~= period_set());
            }
            let w = self.read_match_any(mb.as_slice());
            if is_word(&w, ".") {
                return Token::Period;
            } else if is_word(&w, "..") {
                return Token::Range;
            } else if is_word(&w, "..=") {
                return Token::RangeInclusive;
            } else if is_word(&w, "...") {
                return Token::DefaultFields;
            } else {
                return Token::Illegal;
            }
        } else if self.ch == B_COLON {
            let w = self.read_match(B_COLON);
            proof {
                assert(seq![B_COLON] =~= colon_set());
            }
            if is_word(&w, "::") {
                return Token::DoubleColon;
            } else {
                return Token::Colon;
            }
        } else if self.ch == B_MINUS {
            let mut mb: Vec<u8> = Vec::new();
            mb.push(B_MINUS);
            mb.push(B_EQ);
            mb.push(B_GT);
            proof {
                assert(mb@ =~= minus_set());
            }
            let w = self.read_match_any(mb.as_slice());
            if is_word(&w, "-=") {
                return Token::MinusEqual;
            } else if is_word(&w, "->") {
                return Token::Arrow;
            } else {
                return Token::Minus;
            }
        } else {
            tok = Token::Illegal;
        }
        self.read_char();
        tok
    }
}

/// Whether `b` is ASCII whitespace.
fn is_whitespace(b: u8) -> (r: bool)
    ensures
        r == is_ws_byte(b),
{
    b == B_SPACE || b == B_TAB || b == B_LF || b == B_FF || b == B_CR
}

/// Whether `b` may open an identifier: a letter or an underscore.
fn is_word_start(b: u8) -> (r: bool)
    ensures
        r == is_word_start_byte(b),
{
    (B_LOWER_A <= b && b <= B_LOWER_Z) || (B_UPPER_A <= b && b <= B_UPPER_Z)
        || b == B_UNDERSCORE
}

/// Whether `b` may continue an identifier: alphanumeric or underscore.
fn is_word_char(b: u8) -> (r: bool)
    ensures
        r == is_word_byte(b),
{
    (B_LOWER_A <= b && b <= B_LOWER_Z) || (B_UPPER_A <= b && b <= B_UPPER_Z)
        || (B_ZERO <= b && b <= B_NINE) || b == B_UNDERSCORE
}

/// Whether `b` is an ASCII decimal digit.
fn is_digit_char(b: u8) -> (r: bool)
    ensures
        r == is_digit_byte(b),
{
    B_ZERO <= b && b <= B_NINE
}

/// Whether the slice holds the byte.
fn contains_byte(bytes: &[u8], b: u8) -> (r: bool)
    ensures
        r == bytes@.contains(b),
{
    let mut i: usize = 0;
    while i < bytes.len()
        invariant
            i <= bytes@.len(),
            forall|j: int| 0 <= j < i ==> bytes@[j] != b,
        decreases bytes@.len() - i,
    {
        if bytes[i] == b {
            assert(bytes@[i as int] == b);
            return true;
        }
        i = i + 1;
    }
    false
}

/// Relies on String::push: it appends exactly the one given character.
#[verifier::external_body]
fn push_char(s: &mut String, c: char)
    ensures
        final(s)@ == old(s)@.push(c),
{
    s.push(c);
}

/// The text spelled by the bytes of `buf` between `from` and `to`, one
/// character per byte.
fn substring(buf: &Vec<u8>, from: usize, to: usize) -> (s: String)
    requires
        from <= to <= buf@.len(),
    ensures
        s@ == text(buf@, from as int, to as int),
{
    let mut s = String::new();
    let mut i: usize = from;
    while i < to
        invariant
            from <= i <= to <= buf@.len(),
            s@ == text(buf@, from as int, i as int),
        decreases to - i,
    {
        let c = buf[i] as char;
        push_char(&mut s, c);
        proof {
            assert(buf@.subrange(from as int, i + 1) =~= buf@.subrange(from as int, i as int).push(
                buf@[i as int],
            ));
            assert(text(buf@, from as int, i + 1) =~= text(buf@, from as int, i as int).push(c));
        }
        i = i + 1;
    }
    s
}

/// Whether the string `w` spells exactly the word `kw`.
fn is_word(w: &String, kw: &str) -> (r: bool)
    ensures
        r == (w@ == kw@),
{
    w.eq(&kw.to_owned())
}

/// Classifies a maximal identifier run against the reserved-word table:
/// a hit yields the word's fixed token, a miss an identifier token
/// carrying the exact text.
fn keyword_or_ident(w: String) -> (t: Token)
    ensures
        t@ == word_token(w@),
{
    if is_word(&w, "fn") {
        Token::Function
    } else if is_word(&w, "let") {
        Token::Let
    } else if is_word(&w, "const") {
        Token::Const
    } else if is_word(&w, "static") {
        Token::Static
    } else if is_word(&w, "mod") {
        Token::Mod
    } else if is_word(&w, "pub") {
        Token::Pub
    } else if is_word(&w, "crate") {
        Token::Crate
    } else if is_word(&w, "use") {
        Token::Use
    } else if is_word(&w, "as") {
        Token::As
    } else if is_word(&w, "extern") {
        Token::Extern
    } else if is_word(&w, "Self") {
        Token::SelfType
    } else if is_word(&w, "self") {
        Token::Self_
    } else if is_word(&w, "for") {
        Token::For
    } else if is_word(&w, "in") {
        Token::In
    } else if is_word(&w, "if") {
        Token::If
    } else if is_word(&w, "else") {
        Token::Else
    } else if is_word(&w, "match") {
        Token::Match
    } else if is_word(&w, "while") {
        Token::While
    } else if is_word(&w, "loop") {
        Token::Loop
    } else if is_word(&w, "continue") {
        Token::Continue
    } else if is_word(&w, "break") {
        Token::Break
    } else if is_word(&w, "return") {
        Token::Return
    } else if is_word(&w, "mut") {
        Token::Mut
    } else if is_word(&w, "i8") {
        Token::I8
    } else if is_word(&w, "u8") {
        Token::U8
    } else if is_word(&w, "i16") {
        Token::I16
    } else if is_word(&w, "u16") {
        Token::U16
    } else if is_word(&w, "i32") {
        Token::I32
    } else if is_word(&w, "u32") {
        Token::U32
    } else if is_word(&w, "i64") {
        Token::I64
    } else if is_word(&w, "u64") {
        Token::U64
    } else if is_word(&w, "i128") {
        Token::I128
    } else if is_word(&w, "u128") {
        Token::U128
    } else if is_word(&w, "isize") {
        Token::Isize
    } else if is_word(&w, "usize") {
        Token::Usize
    } else if is_word(&w, "f32") {
        Token::F32
    } else if is_word(&w, "f64") {
        Token::F64
    } else if is_word(&w, "bool") {
        Token::Bool
    } else if is_word(&w, "char") {
        Token::Char
    } else if is_word(&w, "str") {
        Token::Str
    } else if is_word(&w, "true") {
        Token::True
    } else if is_word(&w, "false") {
        Token::False
    } else if is_word(&w, "default") {
        Token::Default
    } else if is_word(&w, "type") {
        Token::Type
    } else if is_word(&w, "struct") {
        Token::Struct
    } else if is_word(&w, "enum") {
        Token::Enum
    } else if is_word(&w, "trait") {
        Token::Trait
    } else if is_word(&w, "impl") {
        Token::Impl
    } else {
        Token::Ident(w)
    }
}

} // verus!
