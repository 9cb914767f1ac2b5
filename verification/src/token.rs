//! The token taxonomy: a closed tagged union with one variant per lexical
//! category. Two variants carry the exact matched text; all others are bare
//! markers for punctuation marks, operators and reserved words.

use vstd::prelude::*;

verus! {

/// The atomic unit of lexical output. `Ident` and `Int` carry the exact
/// substring that was matched; every other variant is a fixed marker.
#[derive(Debug, PartialEq)]
pub enum Token {
    Ident(String),
    Int(String),
    Illegal,
    Eof,
    Equal,
    Plus,
    Comma,
    Semicolon,
    Lparen,
    Rparen,
    LSquirly,
    RSquirly,
    Function,
    Let,
    Const,
    Static,
    Period,
    DQuote,
    SQuote,
    Colon,
    DoubleColon,
    Mod,
    Pub,
    Crate,
    Use,
    As,
    Extern,
    SelfType,
    Self_,
    Range,
    RangeInclusive,
    DefaultFields,
    For,
    In,
    If,
    Else,
    Match,
    While,
    Loop,
    Continue,
    Break,
    Return,
    PlusEqual,
    MinusEqual,
    Mut,
    Ampersand,
    AmpersandAmpersand,
    Pipe,
    PipePipe,
    Bang,
    BangEqual,
    EqualEqual,
    I8,
    U8,
    I16,
    U16,
    I32,
    U32,
    I64,
    U64,
    I128,
    U128,
    Isize,
    Usize,
    F32,
    F64,
    Bool,
    Char,
    Str,
    True,
    False,
    Default,
    Type,
    Struct,
    Enum,
    Trait,
    Impl,
    Arrow,
    Minus,
}

/// The mathematical shape of a token: the same taxonomy with the carried
/// text as a character sequence. Contracts and the scanning model speak
/// of this type; `Token`'s view maps into it.
pub enum TokenView {
    Ident(Seq<char>),
    Int(Seq<char>),
    Illegal,
    Eof,
    Equal,
    Plus,
    Comma,
    Semicolon,
    Lparen,
    Rparen,
    LSquirly,
    RSquirly,
    Function,
    Let,
    Const,
    Static,
    Period,
    DQuote,
    SQuote,
    Colon,
    DoubleColon,
    Mod,
    Pub,
    Crate,
    Use,
    As,
    Extern,
    SelfType,
    Self_,
    Range,
    RangeInclusive,
    DefaultFields,
    For,
    In,
    If,
    Else,
    Match,
    While,
    Loop,
    Continue,
    Break,
    Return,
    PlusEqual,
    MinusEqual,
    Mut,
    Ampersand,
    AmpersandAmpersand,
    Pipe,
    PipePipe,
    Bang,
    BangEqual,
    EqualEqual,
    I8,
    U8,
    I16,
    U16,
    I32,
    U32,
    I64,
    U64,
    I128,
    U128,
    Isize,
    Usize,
    F32,
    F64,
    Bool,
    Char,
    Str,
    True,
    False,
    Default,
    Type,
    Struct,
    Enum,
    Trait,
    Impl,
    Arrow,
    Minus,
}

impl View for Token {
    type V = TokenView;

    open spec fn view(&self) -> TokenView {
        match self {
            Token::Ident(s) => TokenView::Ident(s@),
            Token::Int(s) => TokenView::Int(s@),
            Token::Illegal => TokenView::Illegal,
            Token::Eof => TokenView::Eof,
            Token::Equal => TokenView::Equal,
            Token::Plus => TokenView::Plus,
            Token::Comma => TokenView::Comma,
            Token::Semicolon => TokenView::Semicolon,
            Token::Lparen => TokenView::Lparen,
            Token::Rparen => TokenView::Rparen,
            Token::LSquirly => TokenView::LSquirly,
            Token::RSquirly => TokenView::RSquirly,
            Token::Function => TokenView::Function,
            Token::Let => TokenView::Let,
            Token::Const => TokenView::Const,
            Token::Static => TokenView::Static,
            Token::Period => TokenView::Period,
            Token::DQuote => TokenView::DQuote,
            Token::SQuote => TokenView::SQuote,
            Token::Colon => TokenView::Colon,
            Token::DoubleColon => TokenView::DoubleColon,
            Token::Mod => TokenView::Mod,
            Token::Pub => TokenView::Pub,
            Token::Crate => TokenView::Crate,
            Token::Use => TokenView::Use,
            Token::As => TokenView::As,
            Token::Extern => TokenView::Extern,
            Token::SelfType => TokenView::SelfType,
            Token::Self_ => TokenView::Self_,
            Token::Range => TokenView::Range,
            Token::RangeInclusive => TokenView::RangeInclusive,
            Token::DefaultFields => TokenView::DefaultFields,
            Token::For => TokenView::For,
            Token::In => TokenView::In,
            Token::If => TokenView::If,
            Token::Else => TokenView::Else,
            Token::Match => TokenView::Match,
            Token::While => TokenView::While,
            Token::Loop => TokenView::Loop,
            Token::Continue => TokenView::Continue,
            Token::Break => TokenView::Break,
            Token::Return => TokenView::Return,
            Token::PlusEqual => TokenView::PlusEqual,
            Token::MinusEqual => TokenView::MinusEqual,
            Token::Mut => TokenView::Mut,
            Token::Ampersand => TokenView::Ampersand,
            Token::AmpersandAmpersand => TokenView::AmpersandAmpersand,
            Token::Pipe => TokenView::Pipe,
            Token::PipePipe => TokenView::PipePipe,
            Token::Bang => TokenView::Bang,
            Token::BangEqual => TokenView::BangEqual,
            Token::EqualEqual => TokenView::EqualEqual,
            Token::I8 => TokenView::I8,
            Token::U8 => TokenView::U8,
            Token::I16 => TokenView::I16,
            Token::U16 => TokenView::U16,
            Token::I32 => TokenView::I32,
            Token::U32 => TokenView::U32,
            Token::I64 => TokenView::I64,
            Token::U64 => TokenView::U64,
            Token::I128 => TokenView::I128,
            Token::U128 => TokenView::U128,
            Token::Isize => TokenView::Isize,
            Token::Usize => TokenView::Usize,
            Token::F32 => TokenView::F32,
            Token::F64 => TokenView::F64,
            Token::Bool => TokenView::Bool,
            Token::Char => TokenView::Char,
            Token::Str => TokenView::Str,
            Token::True => TokenView::True,
            Token::False => TokenView::False,
            Token::Default => TokenView::Default,
            Token::Type => TokenView::Type,
            Token::Struct => TokenView::Struct,
            Token::Enum => TokenView::Enum,
            Token::Trait => TokenView::Trait,
            Token::Impl => TokenView::Impl,
            Token::Arrow => TokenView::Arrow,
            Token::Minus => TokenView::Minus,
        }
    }
}

/// The reserved-word table: classifies a maximal identifier run. A word
/// that matches a keyword, primitive type name or boolean literal yields
/// its fixed token; any other word is an identifier carrying the text.
pub open spec fn word_token(w: Seq<char>) -> TokenView {
    if w == "fn"@ {
        TokenView::Function
    } else if w == "let"@ {
        TokenView::Let
    } else if w == "const"@ {
        TokenView::Const
    } else if w == "static"@ {
        TokenView::Static
    } else if w == "mod"@ {
        TokenView::Mod
    } else if w == "pub"@ {
        TokenView::Pub
    } else if w == "crate"@ {
        TokenView::Crate
    } else if w == "use"@ {
        TokenView::Use
    } else if w == "as"@ {
        TokenView::As
    } else if w == "extern"@ {
        TokenView::Extern
    } else if w == "Self"@ {
        TokenView::SelfType
    } else if w == "self"@ {
        TokenView::Self_
    } else if w == "for"@ {
        TokenView::For
    } else if w == "in"@ {
        TokenView::In
    } else if w == "if"@ {
        TokenView::If
    } else if w == "else"@ {
        TokenView::Else
    } else if w == "match"@ {
        TokenView::Match
    } else if w == "while"@ {
        TokenView::While
    } else if w == "loop"@ {
        TokenView::Loop
    } else if w == "continue"@ {
        TokenView::Continue
    } else if w == "break"@ {
        TokenView::Break
    } else if w == "return"@ {
        TokenView::Return
    } else if w == "mut"@ {
        TokenView::Mut
    } else if w == "i8"@ {
        TokenView::I8
    } else if w == "u8"@ {
        TokenView::U8
    } else if w == "i16"@ {
        TokenView::I16
    } else if w == "u16"@ {
        TokenView::U16
    } else if w == "i32"@ {
        TokenView::I32
    } else if w == "u32"@ {
        TokenView::U32
    } else if w == "i64"@ {
        TokenView::I64
    } else if w == "u64"@ {
        TokenView::U64
    } else if w == "i128"@ {
        TokenView::I128
    } else if w == "u128"@ {
        TokenView::U128
    } else if w == "isize"@ {
        TokenView::Isize
    } else if w == "usize"@ {
        TokenView::Usize
    } else if w == "f32"@ {
        TokenView::F32
    } else if w == "f64"@ {
        TokenView::F64
    } else if w == "bool"@ {
        TokenView::Bool
    } else if w == "char"@ {
        TokenView::Char
    } else if w == "str"@ {
        TokenView::Str
    } else if w == "true"@ {
        TokenView::True
    } else if w == "false"@ {
        TokenView::False
    } else if w == "default"@ {
        TokenView::Default
    } else if w == "type"@ {
        TokenView::Type
    } else if w == "struct"@ {
        TokenView::Struct
    } else if w == "enum"@ {
        TokenView::Enum
    } else if w == "trait"@ {
        TokenView::Trait
    } else if w == "impl"@ {
        TokenView::Impl
    } else {
        TokenView::Ident(w)
    }
}

} // verus!
