//! The mathematical model of the scanner: byte classes, run boundaries,
//! and the token that a scan produces at each cursor position. The
//! executable scanner's contracts are stated against these functions.

use vstd::prelude::*;

use crate::token::TokenView;
use crate::token::word_token;

verus! {

// Byte values of the ASCII characters the scanner dispatches on.
pub const B_TAB: u8 = 9;
pub const B_LF: u8 = 10;
pub const B_FF: u8 = 12;
pub const B_CR: u8 = 13;
pub const B_SPACE: u8 = 32;
pub const B_LPAREN: u8 = 40;
pub const B_RPAREN: u8 = 41;
pub const B_PLUS: u8 = 43;
pub const B_COMMA: u8 = 44;
pub const B_MINUS: u8 = 45;
pub const B_DOT: u8 = 46;
pub const B_ZERO: u8 = 48;
pub const B_NINE: u8 = 57;
pub const B_COLON: u8 = 58;
pub const B_SEMI: u8 = 59;
pub const B_EQ: u8 = 61;
pub const B_GT: u8 = 62;
pub const B_UPPER_A: u8 = 65;
pub const B_UPPER_Z: u8 = 90;
pub const B_UNDERSCORE: u8 = 95;
pub const B_LOWER_A: u8 = 97;
pub const B_LOWER_Z: u8 = 122;
pub const B_LBRACE: u8 = 123;
pub const B_RBRACE: u8 = 125;


/// ASCII whitespace: space, horizontal tab, line feed, form feed,
/// carriage return.
pub open spec fn is_ws_byte(b: u8) -> bool {
    b == B_SPACE || b == B_TAB || b == B_LF || b == B_FF || b == B_CR
}

/// An ASCII letter.
pub open spec fn is_letter_byte(b: u8) -> bool {
    (B_LOWER_A <= b && b <= B_LOWER_Z) || (B_UPPER_A <= b && b <= B_UPPER_Z)
}

/// An ASCII decimal digit.
pub open spec fn is_digit_byte(b: u8) -> bool {
    B_ZERO <= b && b <= B_NINE
}

/// A byte that may open an identifier: a letter or an underscore.
pub open spec fn is_word_start_byte(b: u8) -> bool {
    is_letter_byte(b) || b == B_UNDERSCORE
}

/// A byte that may continue an identifier: alphanumeric or underscore.
pub open spec fn is_word_byte(b: u8) -> bool {
    is_letter_byte(b) || is_digit_byte(b) || b == B_UNDERSCORE
}

/// The bytes that maximal munch may consume after a `+` leader.
pub open spec fn plus_set() -> Seq<u8> {
    seq![B_PLUS, B_EQ]
}

/// The bytes that maximal munch may consume after a `.` leader.
pub open spec fn period_set() -> Seq<u8> {
    seq![B_DOT, B_EQ]
}

/// The bytes that maximal munch may consume after a `:` leader.
pub open spec fn colon_set() -> Seq<u8> {
    seq![B_COLON]
}

/// The bytes that maximal munch may consume after a `-` leader.
pub open spec fn minus_set() -> Seq<u8> {
    seq![B_MINUS, B_EQ, B_GT]
}

/// The characters spelled by a run of bytes, one character per byte.
pub open spec fn chars_of(bytes: Seq<u8>) -> Seq<char> {
    bytes.map_values(|b: u8| b as char)
}

/// The text of `s` between positions `from` and `to`, as characters.
pub open spec fn text(s: Seq<u8>, from: int, to: int) -> Seq<char> {
    chars_of(s.subrange(from, to))
}

/// The first position at or after `pos` that does not hold whitespace.
pub open spec fn ws_end(s: Seq<u8>, pos: int) -> int
    decreases s.len() - pos
        when 0 <= pos <= s.len()
{
    if pos < s.len() && is_ws_byte(s[pos]) {
        ws_end(s, pos + 1)
    } else {
        pos
    }
}

/// The end of the maximal identifier run starting at `pos`.
pub open spec fn word_end(s: Seq<u8>, pos: int) -> int
    decreases s.len() - pos
        when 0 <= pos <= s.len()
{
    if pos < s.len() && is_word_byte(s[pos]) {
        word_end(s, pos + 1)
    } else {
        pos
    }
}

/// The end of the maximal digit run starting at `pos`.
pub open spec fn digits_end(s: Seq<u8>, pos: int) -> int
    decreases s.len() - pos
        when 0 <= pos <= s.len()
{
    if pos < s.len() && is_digit_byte(s[pos]) {
        digits_end(s, pos + 1)
    } else {
        pos
    }
}

/// The end of the maximal run of bytes from `allowed` starting at `pos`.
pub open spec fn match_end(s: Seq<u8>, pos: int, allowed: Seq<u8>) -> int
    decreases s.len() - pos
        when 0 <= pos <= s.len()
{
    if pos < s.len() && allowed.contains(s[pos]) {
        match_end(s, pos + 1, allowed)
    } else {
        pos
    }
}

/// Classifies a maximal-munch run under the `+` leader.
pub open spec fn plus_token(w: Seq<char>) -> TokenView {
    if w == "+="@ {
        TokenView::PlusEqual
    } else {
        TokenView::Plus
    }
}

/// Classifies a maximal-munch run under the `-` leader.
pub open spec fn minus_token(w: Seq<char>) -> TokenView {
    if w == "-="@ {
        TokenView::MinusEqual
    } else if w == "->"@ {
        TokenView::Arrow
    } else {
        TokenView::Minus
    }
}

/// Classifies a maximal-munch run under the `.` leader. A run that matches
/// none of the four legal shapes is an unrecognized token.
pub open spec fn period_token(w: Seq<char>) -> TokenView {
    if w == "."@ {
        TokenView::Period
    } else if w == ".."@ {
        TokenView::Range
    } else if w == "..="@ {
        TokenView::RangeInclusive
    } else if w == "..."@ {
        TokenView::DefaultFields
    } else {
        TokenView::Illegal
    }
}

/// Classifies a maximal-munch run under the `:` leader.
pub open spec fn colon_token(w: Seq<char>) -> TokenView {
    if w == "::"@ {
        TokenView::DoubleColon
    } else {
        TokenView::Colon
    }
}

/// The token that starts at position `p` (whitespace already skipped),
/// together with the cursor position after it. At the end of input, or on
/// a zero byte, the scan yields the end-of-input token without advancing.
pub open spec fn token_at(s: Seq<u8>, p: int) -> (TokenView, int) {
    if p >= s.len() || s[p] == 0 {
        (TokenView::Eof, p)
    } else {
        let b = s[p];
        if b == B_LBRACE {
            (TokenView::LSquirly, p + 1)
        } else if b == B_RBRACE {
            (TokenView::RSquirly, p + 1)
        } else if b == B_LPAREN {
            (TokenView::Lparen, p + 1)
        } else if b == B_RPAREN {
            (TokenView::Rparen, p + 1)
        } else if b == B_COMMA {
            (TokenView::Comma, p + 1)
        } else if b == B_SEMI {
            (TokenView::Semicolon, p + 1)
        } else if b == B_PLUS {
            let e = match_end(s, p, plus_set());
            (plus_token(text(s, p, e)), e)
        } else if b == B_EQ {
            (TokenView::Equal, p + 1)
        } else if is_word_start_byte(b) {
            let e = word_end(s, p + 1);
            (word_token(text(s, p, e)), e)
        } else if is_digit_byte(b) {
            let e = digits_end(s, p);
            (TokenView::Int(text(s, p, e)), e)
        } else if b == B_DOT {
            let e = match_end(s, p, period_set());
            (period_token(text(s, p, e)), e)
        } else if b == B_COLON {
            let e = match_end(s, p, colon_set());
            (colon_token(text(s, p, e)), e)
        } else if b == B_MINUS {
            let e = match_end(s, p, minus_set());
            (minus_token(text(s, p, e)), e)
        } else {
            (TokenView::Illegal, p + 1)
        }
    }
}

/// One complete scanning step from cursor position `pos`: skip
/// whitespace, then classify the token there. Returns the token and the
/// cursor position after it.
pub open spec fn next_token_model(s: Seq<u8>, pos: int) -> (TokenView, int) {
    token_at(s, ws_end(s, pos))
}

pub proof fn lemma_ws_end_bounds(s: Seq<u8>, pos: int)
    requires
        0 <= pos <= s.len(),
    ensures
        pos <= ws_end(s, pos) <= s.len(),
    decreases s.len() - pos,
{
    if pos < s.len() && is_ws_byte(s[pos]) {
        lemma_ws_end_bounds(s, pos + 1);
    }
}

pub proof fn lemma_word_end_bounds(s: Seq<u8>, pos: int)
    requires
        0 <= pos <= s.len(),
    ensures
        pos <= word_end(s, pos) <= s.len(),
    decreases s.len() - pos,
{
    if pos < s.len() && is_word_byte(s[pos]) {
        lemma_word_end_bounds(s, pos + 1);
    }
}

pub proof fn lemma_digits_end_bounds(s: Seq<u8>, pos: int)
    requires
        0 <= pos <= s.len(),
    ensures
        pos <= digits_end(s, pos) <= s.len(),
    decreases s.len() - pos,
{
    if pos < s.len() && is_digit_byte(s[pos]) {
        lemma_digits_end_bounds(s, pos + 1);
    }
}

pub proof fn lemma_match_end_bounds(s: Seq<u8>, pos: int, allowed: Seq<u8>)
    requires
        0 <= pos <= s.len(),
    ensures
        pos <= match_end(s, pos, allowed) <= s.len(),
    decreases s.len() - pos,
{
    if pos < s.len() && allowed.contains(s[pos]) {
        lemma_match_end_bounds(s, pos + 1, allowed);
    }
}

/// Progress: a scanning step never moves the cursor backwards or past the
/// end of input, and every step that does not yield the end-of-input
/// token moves the cursor strictly forward.
pub proof fn lemma_progress(s: Seq<u8>, pos: int)
    requires
        0 <= pos <= s.len(),
    ensures
        pos <= next_token_model(s, pos).1 <= s.len(),
        !(next_token_model(s, pos).0 is Eof) ==> next_token_model(s, pos).1 > pos,
{
    lemma_ws_end_bounds(s, pos);
    let p = ws_end(s, pos);
    if p < s.len() && s[p] != 0 {
        let b = s[p];
        if b == B_PLUS {
            assert(plus_set().contains(b)) by { assert(plus_set()[0] == b); }
            lemma_match_end_bounds(s, p + 1, plus_set());
        } else if is_word_start_byte(b) {
            lemma_word_end_bounds(s, p + 1);
        } else if is_digit_byte(b) {
            lemma_digits_end_bounds(s, p + 1);
        } else if b == B_DOT {
            assert(period_set().contains(b)) by { assert(period_set()[0] == b); }
            lemma_match_end_bounds(s, p + 1, period_set());
        } else if b == B_COLON {
            assert(colon_set().contains(b)) by { assert(colon_set()[0] == b); }
            lemma_match_end_bounds(s, p + 1, colon_set());
        } else if b == B_MINUS {
            assert(minus_set().contains(b)) by { assert(minus_set()[0] == b); }
            lemma_match_end_bounds(s, p + 1, minus_set());
        }
    }
}

/// The full token sequence that repeated scanning steps produce from
/// position `pos`, up to and including the end-of-input token. Its
/// well-founded definition rests on the progress property.
pub open spec fn tokens_from(s: Seq<u8>, pos: int) -> Seq<TokenView>
    decreases s.len() - pos
        when 0 <= pos <= s.len()
        via tokens_from_decreases
{
    let step = next_token_model(s, pos);
    if step.0 is Eof {
        seq![step.0]
    } else {
        seq![step.0] + tokens_from(s, step.1)
    }
}

#[via_fn]
proof fn tokens_from_decreases(s: Seq<u8>, pos: int) {
    lemma_progress(s, pos);
}

/// The token sequence of a whole input buffer.
pub open spec fn tokens(s: Seq<u8>) -> Seq<TokenView> {
    tokens_from(s, 0)
}

} // verus!
