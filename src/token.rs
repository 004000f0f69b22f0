//! Tokens as the lexer hands them to the parser.
use crate::number::Number;
use vstd::prelude::*;

verus! {

#[derive(Clone, Copy, Debug, PartialEq, Eq, Structural)]
pub enum TokenType {
    // Single-character tokens.
    LeftParen,
    RightParen,
    LeftBrace,
    RightBrace,
    Comma,
    Dot,
    Minus,
    Plus,
    Semicolon,
    Colon,
    Slash,
    Star,
    QuestionMark,
    // One or two character tokens.
    Bang,
    BangEqual,
    Equal,
    EqualEqual,
    Greater,
    GreaterEqual,
    Less,
    LessEqual,
    // Literals.
    Identifier,
    String,
    Number,
    // Keywords.
    And,
    Class,
    Else,
    False,
    Fun,
    For,
    If,
    Nil,
    Or,
    Print,
    Return,
    Break,
    Super,
    This,
    True,
    Var,
    While,
    Eof,
}

/// The payload of a literal: what a `STRING` or `NUMBER` token carries, and
/// what a literal expression evaluates to.
#[derive(Debug)]
pub enum Literal {
    Nil,
    Boolean(bool),
    Number(Number),
    String(String),
}

impl Clone for Literal {
    fn clone(&self) -> (r: Self)
        ensures
            r == *self,
    {
        copy_literal(self)
    }
}

pub(crate) fn copy_literal(l: &Literal) -> (r: Literal)
    ensures
        r == *l,
{
        match l {
            Literal::Nil => Literal::Nil,
            Literal::Boolean(b) => Literal::Boolean(*b),
            Literal::Number(n) => Literal::Number(*n),
            Literal::String(s) => Literal::String(s.clone()),
        }
}

#[derive(Debug)]
pub struct Token {
    pub token_type: TokenType,
    pub literal: Literal,
    pub lexeme: String,
    pub line: usize,
}

impl Clone for Token {
    fn clone(&self) -> (r: Self)
        ensures
            r == *self,
    {
        copy_token(self)
    }
}

pub(crate) fn copy_token(t: &Token) -> (r: Token)
    ensures
        r == *t,
{
    Token {
        token_type: t.token_type,
        literal: copy_literal(&t.literal),
        lexeme: t.lexeme.clone(),
        line: t.line,
    }
}

impl Token {
    pub fn new(token_type: TokenType, literal: Literal, lexeme: String, line: usize) -> (r: Self)
        ensures
            r.token_type == token_type,
            r.literal == literal,
            r.lexeme == lexeme,
            r.line == line,
    {
        Token { token_type, literal, lexeme, line }
    }
}

} // verus!
