use lexer::Lexer;
use lexer::Token;

#[test]
fn get_next_token() {
    let input = "=+(){},;";
    let mut lexer = Lexer::new(input.into());

    let tokens = vec![
        Token::Equal,
        Token::Plus,
        Token::Lparen,
        Token::Rparen,
        Token::LSquirly,
        Token::RSquirly,
        Token::Comma,
        Token::Semicolon,
    ];

    for token in tokens {
        let next_token = lexer.next_token();
        println!("expected: {:?}, received {:?}", token, next_token);
        assert_eq!(token, next_token);
    }
}

#[test]
fn get_next_complete() {
    let input = r#"let five = 5;
            let ten = 10;
            let add = fn(x, y) {
                x + y;
            };
            let result = add(five, ten);"#;

    let mut lex = Lexer::new(input.into());

    let tokens = vec![
        Token::Let,
        Token::Ident(String::from("five")),
        Token::Equal,
        Token::Int(String::from("5")),
        Token::Semicolon,
        Token::Let,
        Token::Ident(String::from("ten")),
        Token::Equal,
        Token::Int(String::from("10")),
        Token::Semicolon,
        Token::Let,
        Token::Ident(String::from("add")),
        Token::Equal,
        Token::Function,
        Token::Lparen,
        Token::Ident(String::from("x")),
        Token::Comma,
        Token::Ident(String::from("y")),
        Token::Rparen,
        Token::LSquirly,
        Token::Ident(String::from("x")),
        Token::Plus,
        Token::Ident(String::from("y")),
        Token::Semicolon,
        Token::RSquirly,
        Token::Semicolon,
        Token::Let,
        Token::Ident(String::from("result")),
        Token::Equal,
        Token::Ident(String::from("add")),
        Token::Lparen,
        Token::Ident(String::from("five")),
        Token::Comma,
        Token::Ident(String::from("ten")),
        Token::Rparen,
        Token::Semicolon,
        Token::Eof,
    ];

    for token in tokens {
        let next_token = lex.next_token();
        println!("expected: {:?}, received {:?}", token, next_token);
        assert_eq!(token, next_token);
    }
}

#[test]
fn get_nutz() {
    let input = r#"
            pub mod nutz {
                use crate::both_nutz;
                pub const NUTZ: u32 = 5;
                pub static NUTZ2: u32 = 10;

                fn bunch_o_nutz() -> u32 {
                    let rng1 = NUTZ..NUTZ2;
                    let rng2 = NUTZ..=NUTZ2;

                    let mut x = 0;
                    for i in rng1 {
                        x += i;
                    }

                    for i in rng2 {
                        x += i;
                    }
                    i
                }
            }
            "#;

    let mut lex = Lexer::new(input.into());

    let tokens = vec![
        Token::Pub,
        Token::Mod,
        Token::Ident(String::from("nutz")),
        Token::LSquirly,
        Token::Use,
        Token::Crate,
        Token::DoubleColon,
        Token::Ident(String::from("both_nutz")),
        Token::Semicolon,
        Token::Pub,
        Token::Const,
        Token::Ident(String::from("NUTZ")),
        Token::Colon,
        Token::U32,
        Token::Equal,
        Token::Int(String::from("5")),
        Token::Semicolon,
        Token::Pub,
        Token::Static,
        Token::Ident(String::from("NUTZ2")),
        Token::Colon,
        Token::U32,
        Token::Equal,
        Token::Int(String::from("10")),
        Token::Semicolon,
        Token::Function,
        Token::Ident(String::from("bunch_o_nutz")),
        Token::Lparen,
        Token::Rparen,
        Token::Arrow,
        Token::U32,
        Token::LSquirly,
        Token::Let,
        Token::Ident(String::from("rng1")),
        Token::Equal,
        Token::Ident(String::from("NUTZ")),
        Token::Range,
        Token::Ident(String::from("NUTZ2")),
        Token::Semicolon,
        Token::Let,
        Token::Ident(String::from("rng2")),
        Token::Equal,
        Token::Ident(String::from("NUTZ")),
        Token::RangeInclusive,
        Token::Ident(String::from("NUTZ2")),
        Token::Semicolon,
        Token::Let,
        Token::Mut,
        Token::Ident(String::from("x")),
        Token::Equal,
        Token::Int(String::from("0")),
        Token::Semicolon,
        Token::For,
        Token::Ident(String::from("i")),
        Token::In,
        Token::Ident(String::from("rng1")),
        Token::LSquirly,
        Token::Ident(String::from("x")),
        Token::PlusEqual,
        Token::Ident(String::from("i")),
        Token::Semicolon,
        Token::RSquirly,
        Token::For,
        Token::Ident(String::from("i")),
        Token::In,
        Token::Ident(String::from("rng2")),
        Token::LSquirly,
        Token::Ident(String::from("x")),
        Token::PlusEqual,
        Token::Ident(String::from("i")),
        Token::Semicolon,
        Token::RSquirly,
        Token::Ident(String::from("i")),
        Token::RSquirly,
        Token::RSquirly,
        Token::Eof,
    ];

    for token in tokens {
        let next_token = lex.next_token();
        println!("expected: {:?}, received {:?}", token, next_token);
        assert_eq!(token, next_token);
    }
}
