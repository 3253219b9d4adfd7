//! The lexical vocabulary and the binding strength of operators.
use vstd::prelude::*;
use vstd::string::*;
use crate::decimal::{decimal, int_to_string};

verus! {

/// A lexical unit of source text.
#[derive(Debug, Clone, PartialEq, Eq)]
pub enum Token {
    Illegal,
    EOF,
    Ident(String),
    Int(i64),
    Assign,
    Plus,
    Minus,
    Asterisk,
    Slash,
    Comma,
    Semicolon,
    Lparen,
    Rparen,
    Lbrace,
    Rbrace,
    Function,
    Let,
}

/// The mathematical model of a [`Token`]: an identifier carries its characters.
pub enum Tok {
    Illegal,
    EOF,
    Ident(Seq<char>),
    Int(i64),
    Assign,
    Plus,
    Minus,
    Asterisk,
    Slash,
    Comma,
    Semicolon,
    Lparen,
    Rparen,
    Lbrace,
    Rbrace,
    Function,
    Let,
}

impl View for Token {
    type V = Tok;

    open spec fn view(&self) -> Tok {
        match self {
            Token::Illegal => Tok::Illegal,
            Token::EOF => Tok::EOF,
            Token::Ident(s) => Tok::Ident(s@),
            Token::Int(v) => Tok::Int(*v),
            Token::Assign => Tok::Assign,
            Token::Plus => Tok::Plus,
            Token::Minus => Tok::Minus,
            Token::Asterisk => Tok::Asterisk,
            Token::Slash => Tok::Slash,
            Token::Comma => Tok::Comma,
            Token::Semicolon => Tok::Semicolon,
            Token::Lparen => Tok::Lparen,
            Token::Rparen => Tok::Rparen,
            Token::Lbrace => Tok::Lbrace,
            Token::Rbrace => Tok::Rbrace,
            Token::Function => Tok::Function,
            Token::Let => Tok::Let,
        }
    }
}

/// The text that names a token in a diagnostic: an integer shows its value,
/// an identifier its name, every other token its variant name.
pub open spec fn describe_tok(t: Tok) -> Seq<char> {
    match t {
        Tok::Illegal => "Illegal"@,
        Tok::EOF => "EOF"@,
        Tok::Ident(name) => "Ident(\""@ + name + "\")"@,
        Tok::Int(v) => decimal(v as int),
        Tok::Assign => "Assign"@,
        Tok::Plus => "Plus"@,
        Tok::Minus => "Minus"@,
        Tok::Asterisk => "Asterisk"@,
        Tok::Slash => "Slash"@,
        Tok::Comma => "Comma"@,
        Tok::Semicolon => "Semicolon"@,
        Tok::Lparen => "Lparen"@,
        Tok::Rparen => "Rparen"@,
        Tok::Lbrace => "Lbrace"@,
        Tok::Rbrace => "Rbrace"@,
        Tok::Function => "Function"@,
        Tok::Let => "Let"@,
    }
}

impl Token {
    /// The text that names this token in a diagnostic.
    pub fn describe(&self) -> (r: String)
        ensures
            r@ == describe_tok(self@),
    {
        match self {
            Token::Illegal => String::from_str("Illegal"),
            Token::EOF => String::from_str("EOF"),
            Token::Ident(name) => {
                let mut s = String::from_str("Ident(\"");
                s.append(name.as_str());
                s.append("\")");
                s
            },
            Token::Int(v) => int_to_string(*v),
            Token::Assign => String::from_str("Assign"),
            Token::Plus => String::from_str("Plus"),
            Token::Minus => String::from_str("Minus"),
            Token::Asterisk => String::from_str("Asterisk"),
            Token::Slash => String::from_str("Slash"),
            Token::Comma => String::from_str("Comma"),
            Token::Semicolon => String::from_str("Semicolon"),
            Token::Lparen => String::from_str("Lparen"),
            Token::Rparen => String::from_str("Rparen"),
            Token::Lbrace => String::from_str("Lbrace"),
            Token::Rbrace => String::from_str("Rbrace"),
            Token::Function => String::from_str("Function"),
            Token::Let => String::from_str("Let"),
        }
    }

    /// A token equal to this one.
    pub fn duplicate(&self) -> (r: Token)
        ensures
            r@ == self@,
    {
        match self {
            Token::Ident(name) => Token::Ident(name.clone()),
            Token::Int(v) => Token::Int(*v),
            Token::Illegal => Token::Illegal,
            Token::EOF => Token::EOF,
            Token::Assign => Token::Assign,
            Token::Plus => Token::Plus,
            Token::Minus => Token::Minus,
            Token::Asterisk => Token::Asterisk,
            Token::Slash => Token::Slash,
            Token::Comma => Token::Comma,
            Token::Semicolon => Token::Semicolon,
            Token::Lparen => Token::Lparen,
            Token::Rparen => Token::Rparen,
            Token::Lbrace => Token::Lbrace,
            Token::Rbrace => Token::Rbrace,
            Token::Function => Token::Function,
            Token::Let => Token::Let,
        }
    }

    /// Whether two tokens are equal: the same kind with the same payload.
    pub fn same(&self, other: &Token) -> (r: bool)
        ensures
            r == (self@ == other@),
    {
        match (self, other) {
            (Token::Ident(a), Token::Ident(b)) => a.eq(b),
            (Token::Int(a), Token::Int(b)) => *a == *b,
            (Token::Illegal, Token::Illegal) => true,
            (Token::EOF, Token::EOF) => true,
            (Token::Assign, Token::Assign) => true,
            (Token::Plus, Token::Plus) => true,
            (Token::Minus, Token::Minus) => true,
            (Token::Asterisk, Token::Asterisk) => true,
            (Token::Slash, Token::Slash) => true,
            (Token::Comma, Token::Comma) => true,
            (Token::Semicolon, Token::Semicolon) => true,
            (Token::Lparen, Token::Lparen) => true,
            (Token::Rparen, Token::Rparen) => true,
            (Token::Lbrace, Token::Lbrace) => true,
            (Token::Rbrace, Token::Rbrace) => true,
            (Token::Function, Token::Function) => true,
            (Token::Let, Token::Let) => true,
            _ => false,
        }
    }
}

/// The token for a scanned word: the keyword `let`, or an identifier.
pub open spec fn lookup_ident_spec(word: Seq<char>) -> Tok {
    if word == "let"@ {
        Tok::Let
    } else {
        Tok::Ident(word)
    }
}

/// Classifies a scanned word as the keyword `let` or as an identifier.
pub fn lookup_ident(ident: String) -> (r: Token)
    ensures
        r@ == lookup_ident_spec(ident@),
{
    let kw = String::from_str("let");
    if ident == kw {
        Token::Let
    } else {
        Token::Ident(ident)
    }
}

/// Binding strength, weakest first.
#[derive(Debug, Clone, Copy, PartialEq, Eq)]
pub enum Precedence {
    Lowest,
    Equals,
    LessGreater,
    Sum,
    Product,
    Prefix,
    Call,
}

/// The position of a precedence in the order `Lowest < Equals < ... < Call`.
pub open spec fn rank_spec(p: Precedence) -> u8 {
    match p {
        Precedence::Lowest => 0,
        Precedence::Equals => 1,
        Precedence::LessGreater => 2,
        Precedence::Sum => 3,
        Precedence::Product => 4,
        Precedence::Prefix => 5,
        Precedence::Call => 6,
    }
}

/// The infix binding strength of a token: `+ -` bind as sums, `* /` as
/// products, and every other token is not an infix operator.
pub open spec fn tok_precedence(t: Tok) -> Precedence {
    match t {
        Tok::Plus | Tok::Minus => Precedence::Sum,
        Tok::Asterisk | Tok::Slash => Precedence::Product,
        _ => Precedence::Lowest,
    }
}

impl Precedence {
    pub fn rank(&self) -> (r: u8)
        ensures
            r == rank_spec(*self),
    {
        match self {
            Precedence::Lowest => 0,
            Precedence::Equals => 1,
            Precedence::LessGreater => 2,
            Precedence::Sum => 3,
            Precedence::Product => 4,
            Precedence::Prefix => 5,
            Precedence::Call => 6,
        }
    }

    pub fn token_precedence(tok: &Token) -> (r: Precedence)
        ensures
            r == tok_precedence(tok@),
    {
        match tok {
            Token::Plus | Token::Minus => Precedence::Sum,
            Token::Asterisk | Token::Slash => Precedence::Product,
            _ => Precedence::Lowest,
        }
    }
}

} // verus!
