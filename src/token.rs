//! Tokens of the language and their canonical text.
use vstd::prelude::*;
use crate::text::{i64_text, int_text};

verus! {

/// A token produced by the lexer.  `ILLEGAL_NUMBER` holds a run of digits
/// too large for `i64`.
#[allow(non_camel_case_types)]
#[derive(Debug, Clone, PartialEq, Eq)]
pub enum Token {
    ILLEGAL,
    ILLEGAL_NUMBER(String),
    EOF,
    IDENT(String),
    INT(i64),
    BOOL(bool),
    STRING(String),
    IF,
    ELSE,
    ASSIGN,
    PLUS,
    MINUS,
    BANG,
    ASTERISK,
    SLASH,
    LT,
    GT,
    EQ,
    NE,
    COMMA,
    SEMICOLON,
    LPAREN,
    RPAREN,
    LBRACE,
    RBRACE,
    FUNCTION,
    LET,
    RETURN,
}

/// The mathematical form of a token: text payloads become character sequences.
#[allow(non_camel_case_types)]
pub enum SpecToken {
    ILLEGAL,
    ILLEGAL_NUMBER(Seq<char>),
    EOF,
    IDENT(Seq<char>),
    INT(i64),
    BOOL(bool),
    STRING(Seq<char>),
    IF,
    ELSE,
    ASSIGN,
    PLUS,
    MINUS,
    BANG,
    ASTERISK,
    SLASH,
    LT,
    GT,
    EQ,
    NE,
    COMMA,
    SEMICOLON,
    LPAREN,
    RPAREN,
    LBRACE,
    RBRACE,
    FUNCTION,
    LET,
    RETURN,
}

impl View for Token {
    type V = SpecToken;

    open spec fn view(&self) -> SpecToken {
        match self {
            Token::ILLEGAL => SpecToken::ILLEGAL,
            Token::ILLEGAL_NUMBER(s) => SpecToken::ILLEGAL_NUMBER(s@),
            Token::EOF => SpecToken::EOF,
            Token::IDENT(s) => SpecToken::IDENT(s@),
            Token::INT(n) => SpecToken::INT(*n),
            Token::BOOL(b) => SpecToken::BOOL(*b),
            Token::STRING(s) => SpecToken::STRING(s@),
            Token::IF => SpecToken::IF,
            Token::ELSE => SpecToken::ELSE,
            Token::ASSIGN => SpecToken::ASSIGN,
            Token::PLUS => SpecToken::PLUS,
            Token::MINUS => SpecToken::MINUS,
            Token::BANG => SpecToken::BANG,
            Token::ASTERISK => SpecToken::ASTERISK,
            Token::SLASH => SpecToken::SLASH,
            Token::LT => SpecToken::LT,
            Token::GT => SpecToken::GT,
            Token::EQ => SpecToken::EQ,
            Token::NE => SpecToken::NE,
            Token::COMMA => SpecToken::COMMA,
            Token::SEMICOLON => SpecToken::SEMICOLON,
            Token::LPAREN => SpecToken::LPAREN,
            Token::RPAREN => SpecToken::RPAREN,
            Token::LBRACE => SpecToken::LBRACE,
            Token::RBRACE => SpecToken::RBRACE,
            Token::FUNCTION => SpecToken::FUNCTION,
            Token::LET => SpecToken::LET,
            Token::RETURN => SpecToken::RETURN,
        }
    }
}

/// The text `true` or `false`.
pub open spec fn bool_text(b: bool) -> Seq<char> {
    if b {
        "true"@
    } else {
        "false"@
    }
}

/// The canonical text of a token, as error messages show it.
pub open spec fn token_text(t: SpecToken) -> Seq<char> {
    match t {
        SpecToken::ILLEGAL => "ILLEGAL"@,
        SpecToken::ILLEGAL_NUMBER(s) => s,
        SpecToken::EOF => "EOF"@,
        SpecToken::IDENT(s) => s,
        SpecToken::INT(n) => int_text(n as int),
        SpecToken::BOOL(b) => bool_text(b),
        SpecToken::STRING(s) => s,
        SpecToken::IF => "if"@,
        SpecToken::ELSE => "else"@,
        SpecToken::ASSIGN => "="@,
        SpecToken::PLUS => "+"@,
        SpecToken::MINUS => "-"@,
        SpecToken::BANG => "!"@,
        SpecToken::ASTERISK => "*"@,
        SpecToken::SLASH => "/"@,
        SpecToken::LT => "<"@,
        SpecToken::GT => ">"@,
        SpecToken::EQ => "=="@,
        SpecToken::NE => "!="@,
        SpecToken::COMMA => ","@,
        SpecToken::SEMICOLON => ";"@,
        SpecToken::LPAREN => "("@,
        SpecToken::RPAREN => ")"@,
        SpecToken::LBRACE => "{"@,
        SpecToken::RBRACE => "}"@,
        SpecToken::FUNCTION => "fn"@,
        SpecToken::LET => "let"@,
        SpecToken::RETURN => "return"@,
    }
}

/// The text `true` or `false`.
pub fn bool_to_text(b: bool) -> (r: String)
    ensures
        r@ == bool_text(b),
{
    if b {
        String::from_str("true")
    } else {
        String::from_str("false")
    }
}

impl Token {
    /// The canonical text of this token.
    pub fn text(&self) -> (r: String)
        ensures
            r@ == token_text(self@),
    {
        match self {
            Token::ILLEGAL => String::from_str("ILLEGAL"),
            Token::ILLEGAL_NUMBER(s) => s.clone(),
            Token::EOF => String::from_str("EOF"),
            Token::IDENT(s) => s.clone(),
            Token::INT(n) => i64_text(*n),
            Token::BOOL(b) => bool_to_text(*b),
            Token::STRING(s) => s.clone(),
            Token::IF => String::from_str("if"),
            Token::ELSE => String::from_str("else"),
            Token::ASSIGN => String::from_str("="),
            Token::PLUS => String::from_str("+"),
            Token::MINUS => String::from_str("-"),
            Token::BANG => String::from_str("!"),
            Token::ASTERISK => String::from_str("*"),
            Token::SLASH => String::from_str("/"),
            Token::LT => String::from_str("<"),
            Token::GT => String::from_str(">"),
            Token::EQ => String::from_str("=="),
            Token::NE => String::from_str("!="),
            Token::COMMA => String::from_str(","),
            Token::SEMICOLON => String::from_str(";"),
            Token::LPAREN => String::from_str("("),
            Token::RPAREN => String::from_str(")"),
            Token::LBRACE => String::from_str("{"),
            Token::RBRACE => String::from_str("}"),
            Token::FUNCTION => String::from_str("fn"),
            Token::LET => String::from_str("let"),
            Token::RETURN => String::from_str("return"),
        }
    }
}

} // verus!
