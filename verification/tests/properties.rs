use lexer::Lexer;
use lexer::Token;

fn all_tokens(input: &str) -> Vec<Token> {
    let mut lex = Lexer::new(input.into());
    let mut out: Vec<Token> = Vec::new();
    loop {
        let tok = lex.next_token();
        let done = tok == Token::Eof;
        out.push(tok);
        if done {
            return out;
        }
    }
}

#[test]
fn empty_input_is_end_of_input() {
    let mut lex = Lexer::new(String::new());
    assert_eq!(lex.next_token(), Token::Eof);
}

#[test]
fn whitespace_only_is_end_of_input() {
    assert_eq!(all_tokens(" \t\r\n"), vec![Token::Eof]);
}

#[test]
fn end_of_input_is_idempotent() {
    let mut lex = Lexer::new(String::from("+"));
    assert_eq!(lex.next_token(), Token::Plus);
    assert_eq!(lex.next_token(), Token::Eof);
    assert_eq!(lex.next_token(), Token::Eof);
    assert_eq!(lex.next_token(), Token::Eof);
}

#[test]
fn arrow_is_one_token() {
    assert_eq!(all_tokens("->"), vec![Token::Arrow, Token::Eof]);
}

#[test]
fn double_minus_falls_back_to_minus() {
    assert_eq!(all_tokens("--"), vec![Token::Minus, Token::Eof]);
}

#[test]
fn minus_runs() {
    assert_eq!(all_tokens("-"), vec![Token::Minus, Token::Eof]);
    assert_eq!(all_tokens("-="), vec![Token::MinusEqual, Token::Eof]);
    assert_eq!(all_tokens("->>"), vec![Token::Minus, Token::Eof]);
}

#[test]
fn plus_runs() {
    assert_eq!(all_tokens("+"), vec![Token::Plus, Token::Eof]);
    assert_eq!(all_tokens("+="), vec![Token::PlusEqual, Token::Eof]);
    assert_eq!(all_tokens("++"), vec![Token::Plus, Token::Eof]);
}

#[test]
fn period_runs() {
    assert_eq!(all_tokens("."), vec![Token::Period, Token::Eof]);
    assert_eq!(all_tokens(".."), vec![Token::Range, Token::Eof]);
    assert_eq!(all_tokens("..="), vec![Token::RangeInclusive, Token::Eof]);
    assert_eq!(all_tokens("..."), vec![Token::DefaultFields, Token::Eof]);
}

#[test]
fn unmatched_period_run_is_illegal() {
    assert_eq!(all_tokens(".="), vec![Token::Illegal, Token::Eof]);
    assert_eq!(all_tokens("..=="), vec![Token::Illegal, Token::Eof]);
}

#[test]
fn colon_runs() {
    assert_eq!(all_tokens(":"), vec![Token::Colon, Token::Eof]);
    assert_eq!(all_tokens("::"), vec![Token::DoubleColon, Token::Eof]);
    assert_eq!(all_tokens(":::"), vec![Token::Colon, Token::Eof]);
}

#[test]
fn unrecognized_byte_is_illegal() {
    assert_eq!(
        all_tokens("@ #"),
        vec![Token::Illegal, Token::Illegal, Token::Eof]
    );
}

#[test]
fn keyword_prefix_is_one_identifier() {
    assert_eq!(
        all_tokens("fnx"),
        vec![Token::Ident(String::from("fnx")), Token::Eof]
    );
}

#[test]
fn integer_text_is_kept_exactly() {
    assert_eq!(
        all_tokens("12345"),
        vec![Token::Int(String::from("12345")), Token::Eof]
    );
    assert_eq!(
        all_tokens("007"),
        vec![Token::Int(String::from("007")), Token::Eof]
    );
}

#[test]
fn digits_end_at_letters() {
    assert_eq!(
        all_tokens("12ab"),
        vec![
            Token::Int(String::from("12")),
            Token::Ident(String::from("ab")),
            Token::Eof
        ]
    );
}

#[test]
fn let_statement_sequence() {
    assert_eq!(
        all_tokens("let five = 5;"),
        vec![
            Token::Let,
            Token::Ident(String::from("five")),
            Token::Equal,
            Token::Int(String::from("5")),
            Token::Semicolon,
            Token::Eof
        ]
    );
}

#[test]
fn whitespace_runs_do_not_matter() {
    let a = all_tokens("let five = 5;");
    let b = all_tokens("let\tfive\n\n  =\r\n 5\u{c} ;");
    assert_eq!(a, b);
    let c = all_tokens("x+y");
    let d = all_tokens("  x  +  y  ");
    assert_eq!(c, d);
}

#[test]
fn keywords_are_classified() {
    assert_eq!(
        all_tokens("true false u32 impl default"),
        vec![
            Token::True,
            Token::False,
            Token::U32,
            Token::Impl,
            Token::Default,
            Token::Eof
        ]
    );
    assert_eq!(
        all_tokens("Self self"),
        vec![Token::SelfType, Token::Self_, Token::Eof]
    );
}

#[test]
fn underscore_opens_identifier() {
    assert_eq!(
        all_tokens("_x9"),
        vec![Token::Ident(String::from("_x9")), Token::Eof]
    );
}

#[test]
fn zero_byte_acts_as_end_of_input() {
    let mut lex = Lexer::new(String::from("a\u{0}b"));
    assert_eq!(lex.next_token(), Token::Ident(String::from("a")));
    assert_eq!(lex.next_token(), Token::Eof);
    assert_eq!(lex.next_token(), Token::Eof);
}
