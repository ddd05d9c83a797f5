//! Lexical tokens: the token kinds the lexer recognises and the token value
//! it hands to the parser.

use vstd::prelude::*;

verus! {

/// The kind of a lexical token.
#[derive(Debug, PartialEq, Eq, Structural, Clone, Copy, Hash)]
pub enum TokenType {
    // An unrecognised character.
    Illegal,
    // End of input.
    Eof,
    // Identifiers and literals.
    Ident,
    Int,
    String,
    // Operators.
    Assign,
    Plus,
    Minus,
    Bang,
    Asterisk,
    Slash,
    Lt,
    Gt,
    Eq,
    NotEq,
    Power,
    And,
    Or,
    Modulo,
    // Delimiters.
    Comma,
    Semicolon,
    LParen,
    RParen,
    LBrace,
    RBrace,
    LBracket,
    RBracket,
    Dot,
    Colon,
    Underscore,
    // Keywords.
    Function,
    Let,
    True,
    False,
    If,
    Else,
    Return,
    Match,
    // Pattern-matching operators.
    Arrow,
    Range,
    // Object-model keywords.
    Class,
    Interface,
    Struct,
    This,
    Super,
    New,
    Extends,
    Implements,
    Public,
    Private,
    Static,
}

/// One lexical unit: its kind and the text it was read from.
#[derive(Debug, PartialEq, Eq, Clone, Hash)]
pub struct Token {
    pub token_type: TokenType,
    pub literal: String,
}

impl Token {
    /// Builds a token from its kind and literal text.
    pub fn new(token_type: TokenType, literal: String) -> (t: Token)
        ensures
            t.token_type == token_type,
            t.literal == literal,
    {
        Token { token_type, literal }
    }
}

} // verus!
