//! The lexer: turns source text into the token stream the parser consumes,
//! skipping white space and line comments.

use vstd::prelude::*;
use vstd::string::StrSliceExecFns;
use vstd::string::StringExecFns;

use crate::strutil::push_char;
use crate::strutil::str_eq;
use crate::token::Token;
use crate::token::TokenType;

verus! {

broadcast use vstd::std_specs::vec::group_vec_axioms, vstd::seq::group_seq_axioms;

/// Whether a character counts as white space between tokens.
pub uninterp spec fn is_whitespace_char(c: char) -> bool;

/// Relies on char::is_whitespace: the Unicode White_Space property, a
/// function of the character alone; the NUL character is not white space.
#[verifier::external_body]
fn char_is_whitespace(c: char) -> (r: bool)
    ensures
        r == is_whitespace_char(c),
        c == '\0' ==> !r,
{
    c.is_whitespace()
}

/// Whether a character counts as alphabetic in an identifier.
pub uninterp spec fn is_alphabetic_char(c: char) -> bool;

/// Relies on char::is_alphabetic: the Unicode Alphabetic property, a
/// function of the character alone; the NUL character is not alphabetic.
#[verifier::external_body]
fn char_is_alphabetic(c: char) -> (r: bool)
    ensures
        r == is_alphabetic_char(c),
        c == '\0' ==> !r,
{
    c.is_alphabetic()
}

/// The lexer: the input as characters, the position of the current
/// character, the position the next read takes, and the current character
/// itself, NUL at and past the end of the input.
pub struct Lexer {
    input: Vec<char>,
    position: usize,
    read_position: usize,
    ch: char,
}

impl Lexer {
    /// The character one past the current one, NUL at the end of the input.
    closed spec fn peeked(&self) -> char {
        if self.read_position >= self.input@.len() {
            '\0'
        } else {
            self.input@[self.read_position as int]
        }
    }

    /// The source text the lexer walks, as characters.
    pub closed spec fn source(&self) -> Seq<char> {
        self.input@
    }

    /// The lexer's well-formedness: the two positions stay inside the input,
    /// the read position stays ahead of the current one until both rest at
    /// the end, and the current character is NUL exactly there.
    pub closed spec fn wf(&self) -> bool {
        &&& self.position <= self.read_position <= self.input@.len()
        &&& (self.position < self.read_position || self.read_position == self.input@.len())
        &&& (self.position == self.input@.len() ==> self.ch == '\0')
    }

    /// A lexer over the given source text, stood on its first character.
    pub fn new(input: String) -> (r: Lexer)
        ensures
            r.wf(),
    {
        let source = input.as_str();
        let n = source.unicode_len();
        let mut chars: Vec<char> = Vec::new();
        let mut i: usize = 0;
        while i < n
            invariant
                i <= n,
                n == source@.len(),
                chars@.len() == i as int,
            decreases n - i,
        {
            chars.push(source.get_char(i));
            i = i + 1;
        }
        let mut lexer = Lexer { input: chars, position: 0, read_position: 0, ch: '\0' };
        lexer.read_char();
        lexer
    }

    /// Reads the next character and advances the positions; at the end of
    /// the input the current character becomes NUL and the positions rest.
    fn read_char(&mut self)
        requires
            old(self).position <= old(self).read_position <= old(self).input@.len(),
        ensures
            final(self).wf(),
            final(self).input == old(self).input,
            final(self).position == old(self).read_position,
            old(self).position < old(self).input@.len() && (old(self).position
                < old(self).read_position || old(self).read_position == old(self).input@.len())
                ==> final(self).position > old(self).position,
    {
        self.position = self.read_position;
        if self.read_position < self.input.len() {
            self.ch = self.input[self.read_position];
            self.read_position = self.read_position + 1;
        } else {
            self.ch = '\0';
        }
    }

    /// The character after the current one, NUL at the end of the input.
    fn peek_char(&self) -> (c: char)
        requires
            self.wf(),
        ensures
            c == self.peeked(),
    {
        if self.read_position >= self.input.len() {
            '\0'
        } else {
            self.input[self.read_position]
        }
    }

    /// The next token of the input: white space and line comments are
    /// skipped, then the longest token at the current character is read.
    /// Past the end of the input, every call yields `Eof`.
    pub fn next_token(&mut self) -> (t: Token)
        requires
            old(self).wf(),
        ensures
            final(self).wf(),
            final(self).source() == old(self).source(),
    {
        loop
            invariant
                self.wf(),
                self.input == old(self).input,
            decreases self.input@.len() - self.position,
        {
            self.skip_whitespace();
            if !self.is_comment_start() {
                break ;
            }
            self.skip_comments();
        }

        let current = self.ch;
        let token: Token = if current == '=' {
            if self.peek_char() == '=' {
                self.read_char();
                Token::new(TokenType::Eq, String::from_str("=="))
            } else if self.peek_char() == '>' {
                self.read_char();
                Token::new(TokenType::Arrow, String::from_str("=>"))
            } else {
                Token::new(TokenType::Assign, String::from_str("="))
            }
        } else if current == '!' {
            if self.peek_char() == '=' {
                self.read_char();
                Token::new(TokenType::NotEq, String::from_str("!="))
            } else {
                Token::new(TokenType::Bang, String::from_str("!"))
            }
        } else if current == '+' {
            Token::new(TokenType::Plus, String::from_str("+"))
        } else if current == '-' {
            Token::new(TokenType::Minus, String::from_str("-"))
        } else if current == '/' {
            Token::new(TokenType::Slash, String::from_str("/"))
        } else if current == '*' {
            if self.peek_char() == '*' {
                self.read_char();
                Token::new(TokenType::Power, String::from_str("**"))
            } else {
                Token::new(TokenType::Asterisk, String::from_str("*"))
            }
        } else if current == '<' {
            Token::new(TokenType::Lt, String::from_str("<"))
        } else if current == '>' {
            Token::new(TokenType::Gt, String::from_str(">"))
        } else if current == '&' {
            if self.peek_char() == '&' {
                self.read_char();
                Token::new(TokenType::And, String::from_str("&&"))
            } else {
                Token::new(TokenType::Illegal, String::from_str("&"))
            }
        } else if current == '|' {
            if self.peek_char() == '|' {
                self.read_char();
                Token::new(TokenType::Or, String::from_str("||"))
            } else {
                Token::new(TokenType::Illegal, String::from_str("|"))
            }
        } else if current == '%' {
            Token::new(TokenType::Modulo, String::from_str("%"))
        } else if current == ';' {
            Token::new(TokenType::Semicolon, String::from_str(";"))
        } else if current == ',' {
            Token::new(TokenType::Comma, String::from_str(","))
        } else if current == '.' {
            if self.peek_char() == '.' {
                self.read_char();
                Token::new(TokenType::Range, String::from_str(".."))
            } else {
                Token::new(TokenType::Dot, String::from_str("."))
            }
        } else if current == '(' {
            Token::new(TokenType::LParen, String::from_str("("))
        } else if current == ')' {
            Token::new(TokenType::RParen, String::from_str(")"))
        } else if current == '{' {
            Token::new(TokenType::LBrace, String::from_str("{"))
        } else if current == '}' {
            Token::new(TokenType::RBrace, String::from_str("}"))
        } else if current == '[' {
            Token::new(TokenType::LBracket, String::from_str("["))
        } else if current == ']' {
            Token::new(TokenType::RBracket, String::from_str("]"))
        } else if current == '"' {
            self.read_string()
        } else if current == '\0' {
            Token::new(TokenType::Eof, String::new())
        } else {
            if self.is_letter() {
                let literal = self.read_identifier();
                let token_type = Self::lookup_ident(literal.as_str());
                return Token::new(token_type, literal);
            }
            if self.is_digit() {
                let literal = self.read_number();
                return Token::new(TokenType::Int, literal);
            }
            let mut text = String::new();
            push_char(&mut text, current);
            Token::new(TokenType::Illegal, text)
        };

        self.read_char();
        token
    }

    /// Skips white space before the next token.
    fn skip_whitespace(&mut self)
        requires
            old(self).wf(),
        ensures
            final(self).wf(),
            final(self).input == old(self).input,
            final(self).position >= old(self).position,
            !is_whitespace_char(final(self).ch),
    {
        while char_is_whitespace(self.ch)
            invariant
                self.wf(),
                self.input == old(self).input,
                self.position >= old(self).position,
            decreases self.input@.len() - self.position,
        {
            self.read_char();
        }
    }

    /// Skips one line comment: everything to the end of the line or input.
    fn skip_comments(&mut self)
        requires
            old(self).wf(),
        ensures
            final(self).wf(),
            final(self).input == old(self).input,
            final(self).position >= old(self).position,
            old(self).ch == '/' && old(self).peeked() == '/' && old(self).position
                < old(self).input@.len() ==> final(self).position > old(self).position,
    {
        if self.ch == '/' && self.peek_char() == '/' {
            let entry = self.position;
            while self.ch != '\n' && self.ch != '\0'
                invariant
                    self.wf(),
                    self.input == old(self).input,
                    self.position >= old(self).position,
                    entry == old(self).position,
                    self.position > entry || (self.ch == '/' && self.position == entry && (
                    self.position < self.input@.len() ==> self.position < self.read_position
                        || self.read_position == self.input@.len())),
                decreases self.input@.len() - self.position,
            {
                self.read_char();
            }
        }
    }

    /// Whether a line comment starts at the current character.
    fn is_comment_start(&self) -> (r: bool)
        requires
            self.wf(),
        ensures
            r == (self.ch == '/' && self.peeked() == '/'),
    {
        self.ch == '/' && self.peek_char() == '/'
    }

    /// The characters from `start` to the current position, as a string.
    fn collect_range(&self, start: usize) -> (r: String)
        requires
            self.wf(),
            start <= self.position,
    {
        let mut out = String::new();
        let mut i: usize = start;
        while i < self.position
            invariant
                self.position <= self.input@.len(),
            decreases self.position - i,
        {
            push_char(&mut out, self.input[i]);
            i = i + 1;
        }
        out
    }

    /// Reads an identifier or keyword: letters, digits and underscores.
    fn read_identifier(&mut self) -> (r: String)
        requires
            old(self).wf(),
        ensures
            final(self).wf(),
            final(self).input == old(self).input,
    {
        let start_pos = self.position;
        while self.is_letter() || self.is_digit()
            invariant
                self.wf(),
                self.input == old(self).input,
                start_pos <= self.position,
            decreases self.input@.len() - self.position,
        {
            self.read_char();
        }
        self.collect_range(start_pos)
    }

    /// Reads an unsigned decimal number.
    fn read_number(&mut self) -> (r: String)
        requires
            old(self).wf(),
        ensures
            final(self).wf(),
            final(self).input == old(self).input,
    {
        let start_pos = self.position;
        while self.is_digit()
            invariant
                self.wf(),
                self.input == old(self).input,
                start_pos <= self.position,
            decreases self.input@.len() - self.position,
        {
            self.read_char();
        }
        self.collect_range(start_pos)
    }

    /// Reads a quoted string literal: everything to the next closing quote
    /// character, or to the end of the input.
    fn read_string(&mut self) -> (t: Token)
        requires
            old(self).wf(),
            old(self).ch == '"',
        ensures
            final(self).wf(),
            final(self).input == old(self).input,
    {
        let start_pos = self.position + 1;
        loop
            invariant
                self.wf(),
                self.input == old(self).input,
                start_pos <= self.position + 1,
                start_pos <= self.input@.len(),
            decreases self.input@.len() - self.position,
        {
            let before = self.position;
            self.read_char();
            if self.ch == '"' || self.ch == '\'' || self.ch == '`' || self.ch == '\0' {
                break ;
            }
            proof {
                assert(self.position > before);
            }
        }
        let from = if start_pos <= self.position {
            start_pos
        } else {
            self.position
        };
        let literal = self.collect_range(from);
        Token::new(TokenType::String, literal)
    }

    /// Whether the current character can start or continue an identifier.
    fn is_letter(&self) -> (r: bool)
        ensures
            r == (is_alphabetic_char(self.ch) || self.ch == '_'),
            self.ch == '\0' ==> !r,
    {
        char_is_alphabetic(self.ch) || self.ch == '_'
    }

    /// Whether the current character is a decimal digit.
    fn is_digit(&self) -> (r: bool)
        ensures
            r == (48 <= self.ch as u32 <= 57),
            self.ch == '\0' ==> !r,
    {
        let c = self.ch as u32;
        48 <= c && c <= 57
    }

    /// The token type of an identifier: its keyword, or `Ident`.
    fn lookup_ident(ident: &str) -> TokenType {
        if str_eq(ident, "class") {
            TokenType::Class
        } else if str_eq(ident, "else") {
            TokenType::Else
        } else if str_eq(ident, "extends") {
            TokenType::Extends
        } else if str_eq(ident, "false") {
            TokenType::False
        } else if str_eq(ident, "fn") {
            TokenType::Function
        } else if str_eq(ident, "if") {
            TokenType::If
        } else if str_eq(ident, "implements") {
            TokenType::Implements
        } else if str_eq(ident, "interface") {
            TokenType::Interface
        } else if str_eq(ident, "let") {
            TokenType::Let
        } else if str_eq(ident, "new") {
            TokenType::New
        } else if str_eq(ident, "private") {
            TokenType::Private
        } else if str_eq(ident, "public") {
            TokenType::Public
        } else if str_eq(ident, "return") {
            TokenType::Return
        } else if str_eq(ident, "static") {
            TokenType::Static
        } else if str_eq(ident, "struct") {
            TokenType::Struct
        } else if str_eq(ident, "super") {
            TokenType::Super
        } else if str_eq(ident, "this") {
            TokenType::This
        } else if str_eq(ident, "true") {
            TokenType::True
        } else if str_eq(ident, "match") {
            TokenType::Match
        } else {
            TokenType::Ident
        }
    }
}

} // verus!
