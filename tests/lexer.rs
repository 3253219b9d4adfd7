use monkey::lexer::Lexer;
use monkey::token::{lookup_ident, Precedence, Token};

#[test]
fn test_next_token() {
    let input = r#"let five = 5;"#;

    let tests = vec![
        Token::Let,
        Token::Ident("five".to_string()),
        Token::Assign,
        Token::Int(5),
        Token::Semicolon,
        Token::EOF,
    ];

    let mut l = Lexer::new(input);

    for t in tests.iter() {
        let tok = l.next_token();

        assert_eq!(*t, tok);
    }
}

fn all_tokens(input: &str) -> Vec<Token> {
    let mut l = Lexer::new(input);
    let mut out = Vec::new();
    while let Some(t) = l.next() {
        out.push(t);
    }
    out
}

#[test]
fn lexes_every_single_character_token() {
    assert_eq!(
        all_tokens("=+-*/,;(){}"),
        vec![
            Token::Assign,
            Token::Plus,
            Token::Minus,
            Token::Asterisk,
            Token::Slash,
            Token::Comma,
            Token::Semicolon,
            Token::Lparen,
            Token::Rparen,
            Token::Lbrace,
            Token::Rbrace,
        ]
    );
}

#[test]
fn end_of_input_repeats() {
    let mut l = Lexer::new("  ");
    assert_eq!(l.next_token(), Token::EOF);
    assert_eq!(l.next_token(), Token::EOF);
    assert_eq!(l.next(), None);
}

#[test]
fn empty_input_has_no_tokens() {
    assert_eq!(all_tokens(""), Vec::<Token>::new());
}

#[test]
fn illegal_characters_become_tokens() {
    assert_eq!(
        all_tokens("1 @ 2 # x"),
        vec![
            Token::Int(1),
            Token::Illegal,
            Token::Int(2),
            Token::Illegal,
            Token::Ident("x".to_string()),
        ]
    );
}

#[test]
fn identifiers_take_letters_and_underscores() {
    assert_eq!(
        all_tokens("_a_b9 lettuce"),
        vec![
            Token::Ident("_a_b".to_string()),
            Token::Int(9),
            Token::Ident("lettuce".to_string()),
        ]
    );
}

#[test]
fn unicode_letters_and_whitespace() {
    // U+00E9 is alphabetic; U+00A0 (no-break space) and U+3000 are whitespace.
    assert_eq!(
        all_tokens("caf\u{e9}\u{a0}\u{3000}7"),
        vec![Token::Ident("caf\u{e9}".to_string()), Token::Int(7)]
    );
    // U+00B7 is neither alphabetic nor whitespace.
    assert_eq!(
        all_tokens("a\u{b7}b"),
        vec![
            Token::Ident("a".to_string()),
            Token::Illegal,
            Token::Ident("b".to_string()),
        ]
    );
}

#[test]
fn whitespace_kinds_are_skipped() {
    assert_eq!(
        all_tokens("\t1\n\r2\u{b}\u{c} 3"),
        vec![Token::Int(1), Token::Int(2), Token::Int(3)]
    );
}

#[test]
fn largest_integer_and_overflowing_digits() {
    assert_eq!(
        all_tokens("9223372036854775807 9223372036854775808;"),
        vec![Token::Int(i64::MAX), Token::Illegal, Token::Semicolon]
    );
    assert_eq!(all_tokens("007"), vec![Token::Int(7)]);
}

#[test]
fn keyword_lookup() {
    assert_eq!(lookup_ident("let".to_string()), Token::Let);
    assert_eq!(lookup_ident("lets".to_string()), Token::Ident("lets".to_string()));
    assert_eq!(lookup_ident("fn".to_string()), Token::Ident("fn".to_string()));
}

#[test]
fn token_descriptions() {
    assert_eq!(Token::Semicolon.describe(), "Semicolon");
    assert_eq!(Token::EOF.describe(), "EOF");
    assert_eq!(Token::Int(-42).describe(), "-42");
    assert_eq!(Token::Int(i64::MIN).describe(), "-9223372036854775808");
    assert_eq!(Token::Ident("x".to_string()).describe(), "Ident(\"x\")");
}

#[test]
fn token_equality_and_copies() {
    let a = Token::Ident("abc".to_string());
    assert!(a.same(&Token::Ident("abc".to_string())));
    assert!(!a.same(&Token::Ident("abd".to_string())));
    assert!(!Token::Int(1).same(&Token::Int(2)));
    assert!(!Token::Plus.same(&Token::Minus));
    assert!(Token::Rparen.same(&Token::Rparen));
    assert_eq!(a.duplicate(), a);
}

#[test]
fn precedence_order() {
    assert_eq!(Precedence::token_precedence(&Token::Plus), Precedence::Sum);
    assert_eq!(Precedence::token_precedence(&Token::Minus), Precedence::Sum);
    assert_eq!(Precedence::token_precedence(&Token::Asterisk), Precedence::Product);
    assert_eq!(Precedence::token_precedence(&Token::Slash), Precedence::Product);
    assert_eq!(Precedence::token_precedence(&Token::Semicolon), Precedence::Lowest);
    let ranks: Vec<u8> = [
        Precedence::Lowest,
        Precedence::Equals,
        Precedence::LessGreater,
        Precedence::Sum,
        Precedence::Product,
        Precedence::Prefix,
        Precedence::Call,
    ]
    .iter()
    .map(|p| p.rank())
    .collect();
    assert_eq!(ranks, vec![0, 1, 2, 3, 4, 5, 6]);
}
