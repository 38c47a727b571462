//! Lexical tokens of the language.
//!
//! A token is produced by the lexer together with the source line and column
//! where it starts.  Identifier, number and string tokens carry a payload;
//! punctuation and keyword tokens do not.  A lexical failure is reported as a
//! specially tagged `Illegal` token, never as a silent empty result.

use vstd::prelude::*;

verus! {

/// A lexical failure, carried inside `Token::Illegal`.
#[derive(Debug, Clone, Copy, PartialEq, Eq, Structural)]
pub enum LexError {
    /// A character that starts no token.
    UnexpectedChar(char),
    /// A string literal whose closing quote is missing; carries the quote.
    UnterminatedString(char),
    /// A number literal that does not fit the value range.
    NumberOutOfRange,
}

/// One token of source text.
///
/// Float literals carry the IEEE-754 binary64 bit pattern of their value,
/// so that the token stream stays within the types the verifier accepts.
#[derive(Debug, Clone, PartialEq)]
pub enum Token {
    Ident(String),
    Int(i64),
    Float(u64),
    Str(String),
    Illegal(LexError),
    Eof,
    Eq,
    Plus,
    Minus,
    Bang,
    Asterisk,
    Slash,
    Pow,
    LessThan,
    GreaterThan,
    LessThanEqual,
    GreaterThanEqual,
    EqEq,
    BangEq,
    Comma,
    Semicolon,
    LParen,
    RParen,
    LBrace,
    RBrace,
    Function,
    Let,
    True,
    False,
    If,
    Else,
    Return,
    For,
    In,
}

/// The mathematical value of a token: string payloads become sequences of
/// characters, everything else is carried unchanged.
pub enum TokenV {
    Ident(Seq<char>),
    Int(i64),
    Float(u64),
    Str(Seq<char>),
    Illegal(LexError),
    Eof,
    Eq,
    Plus,
    Minus,
    Bang,
    Asterisk,
    Slash,
    Pow,
    LessThan,
    GreaterThan,
    LessThanEqual,
    GreaterThanEqual,
    EqEq,
    BangEq,
    Comma,
    Semicolon,
    LParen,
    RParen,
    LBrace,
    RBrace,
    Function,
    Let,
    True,
    False,
    If,
    Else,
    Return,
    For,
    In,
}

impl View for Token {
    type V = TokenV;

    open spec fn view(&self) -> TokenV {
        match self {
            Token::Ident(s) => TokenV::Ident(s@),
            Token::Int(i) => TokenV::Int(*i),
            Token::Float(bits) => TokenV::Float(*bits),
            Token::Str(s) => TokenV::Str(s@),
            Token::Illegal(e) => TokenV::Illegal(*e),
            Token::Eof => TokenV::Eof,
            Token::Eq => TokenV::Eq,
            Token::Plus => TokenV::Plus,
            Token::Minus => TokenV::Minus,
            Token::Bang => TokenV::Bang,
            Token::Asterisk => TokenV::Asterisk,
            Token::Slash => TokenV::Slash,
            Token::Pow => TokenV::Pow,
            Token::LessThan => TokenV::LessThan,
            Token::GreaterThan => TokenV::GreaterThan,
            Token::LessThanEqual => TokenV::LessThanEqual,
            Token::GreaterThanEqual => TokenV::GreaterThanEqual,
            Token::EqEq => TokenV::EqEq,
            Token::BangEq => TokenV::BangEq,
            Token::Comma => TokenV::Comma,
            Token::Semicolon => TokenV::Semicolon,
            Token::LParen => TokenV::LParen,
            Token::RParen => TokenV::RParen,
            Token::LBrace => TokenV::LBrace,
            Token::RBrace => TokenV::RBrace,
            Token::Function => TokenV::Function,
            Token::Let => TokenV::Let,
            Token::True => TokenV::True,
            Token::False => TokenV::False,
            Token::If => TokenV::If,
            Token::Else => TokenV::Else,
            Token::Return => TokenV::Return,
            Token::For => TokenV::For,
            Token::In => TokenV::In,
        }
    }
}

impl Token {
    /// Whether two tokens have the same mathematical value.
    pub fn same(&self, other: &Token) -> (r: bool)
        ensures
            r == (self@ == other@),
    {
        match (self, other) {
            (Token::Ident(a), Token::Ident(b)) => *a == *b,
            (Token::Int(a), Token::Int(b)) => *a == *b,
            (Token::Float(a), Token::Float(b)) => *a == *b,
            (Token::Str(a), Token::Str(b)) => *a == *b,
            (Token::Illegal(a), Token::Illegal(b)) => *a == *b,
            (Token::Eof, Token::Eof) => true,
            (Token::Eq, Token::Eq) => true,
            (Token::Plus, Token::Plus) => true,
            (Token::Minus, Token::Minus) => true,
            (Token::Bang, Token::Bang) => true,
            (Token::Asterisk, Token::Asterisk) => true,
            (Token::Slash, Token::Slash) => true,
            (Token::Pow, Token::Pow) => true,
            (Token::LessThan, Token::LessThan) => true,
            (Token::GreaterThan, Token::GreaterThan) => true,
            (Token::LessThanEqual, Token::LessThanEqual) => true,
            (Token::GreaterThanEqual, Token::GreaterThanEqual) => true,
            (Token::EqEq, Token::EqEq) => true,
            (Token::BangEq, Token::BangEq) => true,
            (Token::Comma, Token::Comma) => true,
            (Token::Semicolon, Token::Semicolon) => true,
            (Token::LParen, Token::LParen) => true,
            (Token::RParen, Token::RParen) => true,
            (Token::LBrace, Token::LBrace) => true,
            (Token::RBrace, Token::RBrace) => true,
            (Token::Function, Token::Function) => true,
            (Token::Let, Token::Let) => true,
            (Token::True, Token::True) => true,
            (Token::False, Token::False) => true,
            (Token::If, Token::If) => true,
            (Token::Else, Token::Else) => true,
            (Token::Return, Token::Return) => true,
            (Token::For, Token::For) => true,
            (Token::In, Token::In) => true,
            _ => false,
        }
    }

    /// An owned copy with the same mathematical value.
    pub fn dup(&self) -> (r: Token)
        ensures
            r@ == self@,
    {
        match self {
            Token::Ident(s) => Token::Ident(s.clone()),
            Token::Int(i) => Token::Int(*i),
            Token::Float(bits) => Token::Float(*bits),
            Token::Str(s) => Token::Str(s.clone()),
            Token::Illegal(e) => Token::Illegal(*e),
            Token::Eof => Token::Eof,
            Token::Eq => Token::Eq,
            Token::Plus => Token::Plus,
            Token::Minus => Token::Minus,
            Token::Bang => Token::Bang,
            Token::Asterisk => Token::Asterisk,
            Token::Slash => Token::Slash,
            Token::Pow => Token::Pow,
            Token::LessThan => Token::LessThan,
            Token::GreaterThan => Token::GreaterThan,
            Token::LessThanEqual => Token::LessThanEqual,
            Token::GreaterThanEqual => Token::GreaterThanEqual,
            Token::EqEq => Token::EqEq,
            Token::BangEq => Token::BangEq,
            Token::Comma => Token::Comma,
            Token::Semicolon => Token::Semicolon,
            Token::LParen => Token::LParen,
            Token::RParen => Token::RParen,
            Token::LBrace => Token::LBrace,
            Token::RBrace => Token::RBrace,
            Token::Function => Token::Function,
            Token::Let => Token::Let,
            Token::True => Token::True,
            Token::False => Token::False,
            Token::If => Token::If,
            Token::Else => Token::Else,
            Token::Return => Token::Return,
            Token::For => Token::For,
            Token::In => Token::In,
        }
    }
}

} // verus!
