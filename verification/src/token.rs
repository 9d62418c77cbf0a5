//! Tokens as the parser hands them to the evaluator.
//!
//! The evaluator never scans source text itself; it only reads the token
//! kind and the lexeme that the abstract syntax tree carries for operators
//! and names.

use vstd::prelude::*;

verus! {

/// The kind of a token produced by the lexer.
#[derive(Clone, Copy, Debug, PartialEq, Eq, Structural)]
pub enum TokenType {
    LeftParen,
    RightParen,
    LeftBrace,
    RightBrace,
    Semicolon,
    Comma,
    Dot,
    Minus,
    Plus,
    Star,
    Slash,
    Power,
    Root,
    Modulo,
    MinusMinus,
    PlusPlus,
    PlusEqual,
    MinusEqual,
    Equal,
    EqualEqual,
    Greater,
    GreaterEqual,
    Less,
    LessEqual,
    Bang,
    BangEqual,
    Identifier,
    StringLit,
    Number,
    And,
    Class,
    Else,
    False,
    Func,
    For,
    If,
    Non,
    Or,
    Print,
    Show,
    Return,
    Super,
    This,
    True,
    Var,
    While,
    Eof,
}

/// A single token: its kind, the exact source text it covers, and the line
/// it was found on.
#[derive(Debug)]
pub struct Token {
    pub token_type: TokenType,
    pub lexeme: String,
    pub line_number: usize,
}

impl Token {
    pub fn new(token_type: TokenType, lexeme: String, line_number: usize) -> (t: Token)
        ensures
            t.token_type == token_type,
            t.lexeme == lexeme,
            t.line_number == line_number,
    {
        Token { token_type, lexeme, line_number }
    }

    /// A deep copy; the evaluator copies name and operator tokens out of the
    /// tree when it builds callables.
    pub fn duplicate(&self) -> (t: Token)
        ensures
            t.token_type == self.token_type,
            t.lexeme@ == self.lexeme@,
            t.line_number == self.line_number,
    {
        Token {
            token_type: self.token_type,
            lexeme: self.lexeme.clone(),
            line_number: self.line_number,
        }
    }
}

} // verus!
