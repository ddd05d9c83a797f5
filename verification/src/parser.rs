//! The parser: a recursive-descent Pratt parser that turns the lexer's token
//! stream into a syntax tree.
//!
//! Each descent carries a depth budget so that its termination is immediate;
//! the budget is far beyond any nesting a real program reaches, and running
//! it out is reported as one more parse error.

use vstd::prelude::*;
use vstd::string::StringExecFns;

use crate::ast;
use crate::ast::AccessModifier;
use crate::ast::Program;
use crate::lexer::Lexer;
use crate::strutil::str_eq;
use crate::token::Token;
use crate::token::TokenType;

verus! {

/// The depth budget of one parse.
const PARSE_FUEL: u64 = u64::MAX;

/// Operator precedence levels, lowest first.
#[derive(Debug, PartialEq, Eq, Structural, Clone, Copy)]
enum Precedence {
    Lowest,
    Arrow,
    Or,
    And,
    Equals,
    LessGreater,
    Sum,
    Product,
    Power,
    Range,
    Prefix,
    Call,
    Dot,
}

impl Precedence {
    /// The numeric rank of the level, for comparisons.
    fn rank(&self) -> u8 {
        match self {
            Precedence::Lowest => 0,
            Precedence::Arrow => 1,
            Precedence::Or => 2,
            Precedence::And => 3,
            Precedence::Equals => 4,
            Precedence::LessGreater => 5,
            Precedence::Sum => 6,
            Precedence::Product => 7,
            Precedence::Power => 8,
            Precedence::Range => 9,
            Precedence::Prefix => 10,
            Precedence::Call => 11,
            Precedence::Dot => 12,
        }
    }
}

/// An error met while parsing; the parser collects them and reports them all
/// at the end.
#[derive(Debug)]
pub enum ParserError {
    UnexpectedToken(String),
}

/// The parser: the lexer it draws tokens from, the current and next token,
/// and the errors collected so far.
pub struct Parser {
    lexer: Lexer,
    current_token: Token,
    next_token: Token,
    errors: Vec<ParserError>,
}

impl Parser {
    /// The parser's well-formedness: its lexer's.
    pub closed spec fn wf(&self) -> bool {
        self.lexer.wf()
    }

    /// A parser over the given lexer, stood on the first two tokens.
    pub fn new(lexer: Lexer) -> (r: Parser)
        requires
            lexer.wf(),
        ensures
            r.wf(),
    {
        let mut parser = Parser {
            lexer,
            current_token: Token::new(TokenType::Illegal, String::new()),
            next_token: Token::new(TokenType::Illegal, String::new()),
            errors: Vec::new(),
        };
        parser.next_token();
        parser.next_token();
        parser
    }

    /// Steps to the next token.
    fn next_token(&mut self)
        requires
            old(self).wf(),
        ensures
            final(self).wf(),
    {
        self.current_token = self.next_token.clone();
        self.next_token = self.lexer.next_token();
    }

    /// Parses the whole program: its statements in order. Returns the tree
    /// when no statement failed, else every error collected.
    pub fn parse_program(&mut self) -> (r: Result<Program, Vec<ParserError>>)
        requires
            old(self).wf(),
        ensures
            final(self).wf(),
    {
        let mut program = Program::new();
        let mut fuel: u64 = PARSE_FUEL;

        while self.current_token.token_type != TokenType::Eof
            invariant
                self.wf(),
            decreases fuel,
        {
            if fuel == 0 {
                self.errors.push(
                    ParserError::UnexpectedToken(String::from_str("statement budget exhausted")),
                );
                break ;
            }
            match self.parse_statement(fuel - 1) {
                Ok(statement) => {
                    program.statements.push(statement);
                },
                Err(e) => {
                    self.errors.push(e);
                },
            }
            self.next_token();
            fuel = fuel - 1;
        }

        if self.errors.is_empty() {
            Ok(program)
        } else {
            let mut taken: Vec<ParserError> = Vec::new();
            core::mem::swap(&mut self.errors, &mut taken);
            Err(taken)
        }
    }

    /// Parses one statement, by the keyword it starts with.
    fn parse_statement(&mut self, fuel: u64) -> (r: Result<ast::Statement, ParserError>)
        requires
            old(self).wf(),
        ensures
            final(self).wf(),
        decreases fuel, 4int,
    {
        if fuel == 0 {
            return Err(budget_error());
        }
        match self.current_token.token_type {
            TokenType::Let => self.parse_let_statement(fuel - 1),
            TokenType::Return => self.parse_return_statement(fuel - 1),
            TokenType::Class => self.parse_class_declaration(fuel - 1),
            TokenType::Struct => self.parse_struct_declaration(fuel - 1),
            TokenType::Interface => self.parse_interface_declaration(fuel - 1),
            _ => self.parse_expression_statement(fuel - 1),
        }
    }

    /// Parses `let <name> = <value>;`.
    fn parse_let_statement(&mut self, fuel: u64) -> (r: Result<ast::Statement, ParserError>)
        requires
            old(self).wf(),
        ensures
            final(self).wf(),
        decreases fuel, 4int,
    {
        if fuel == 0 {
            return Err(budget_error());
        }
        let let_token = self.current_token.clone();

        if !self.expect_peek(TokenType::Ident) {
            return Err(unexpected("expected an identifier after 'let'"));
        }

        let name = ast::Identifier {
            token: self.current_token.clone(),
            value: self.current_token.literal.clone(),
        };

        if !self.expect_peek(TokenType::Assign) {
            return Err(unexpected("expected '=' after the name of a 'let'"));
        }

        self.next_token();

        let value = match self.parse_expression(Precedence::Lowest, fuel - 1) {
            Ok(v) => v,
            Err(e) => {
                return Err(e);
            },
        };

        if self.peek_token_is(TokenType::Semicolon) {
            self.next_token();
        }

        Ok(ast::Statement::Let(ast::LetStatement { token: let_token, name, value }))
    }

    /// Parses `return <value>;`.
    fn parse_return_statement(&mut self, fuel: u64) -> (r: Result<ast::Statement, ParserError>)
        requires
            old(self).wf(),
        ensures
            final(self).wf(),
        decreases fuel, 4int,
    {
        if fuel == 0 {
            return Err(budget_error());
        }
        let return_token = self.current_token.clone();
        self.next_token();

        let return_value = match self.parse_expression(Precedence::Lowest, fuel - 1) {
            Ok(v) => v,
            Err(e) => {
                return Err(e);
            },
        };

        if self.peek_token_is(TokenType::Semicolon) {
            self.next_token();
        }

        Ok(ast::Statement::Return(ast::ReturnStatement { token: return_token, return_value }))
    }

    /// Parses a bare expression in statement position.
    fn parse_expression_statement(&mut self, fuel: u64) -> (r: Result<ast::Statement, ParserError>)
        requires
            old(self).wf(),
        ensures
            final(self).wf(),
        decreases fuel, 4int,
    {
        if fuel == 0 {
            return Err(budget_error());
        }
        let expression = match self.parse_expression(Precedence::Lowest, fuel - 1) {
            Ok(v) => v,
            Err(e) => {
                return Err(e);
            },
        };

        let stmt = ast::ExpressionStatement { token: self.current_token.clone(), expression };

        if self.peek_token_is(TokenType::Semicolon) {
            self.next_token();
        }

        Ok(ast::Statement::Expression(stmt))
    }

    /// The Pratt loop: a prefix expression, then every infix whose
    /// precedence binds tighter than the context.
    fn parse_expression(&mut self, precedence: Precedence, fuel: u64) -> (r: Result<
        ast::Expression,
        ParserError,
    >)
        requires
            old(self).wf(),
        ensures
            final(self).wf(),
        decreases fuel, 4int,
    {
        if fuel == 0 {
            return Err(budget_error());
        }
        let mut left_exp = match self.parse_prefix(fuel - 1) {
            Ok(v) => v,
            Err(e) => {
                return Err(e);
            },
        };

        let mut steps: u64 = fuel - 1;
        while !self.peek_token_is(TokenType::Semicolon) && precedence.rank()
            < self.peek_precedence().rank()
            invariant
                self.wf(),
                steps < fuel,
            decreases steps,
        {
            if steps == 0 {
                return Err(budget_error());
            }
            match self.next_token.token_type {
                TokenType::Plus | TokenType::Minus | TokenType::Slash | TokenType::Asterisk
                    | TokenType::Eq | TokenType::NotEq | TokenType::Lt | TokenType::Gt
                    | TokenType::Power | TokenType::And | TokenType::Or | TokenType::Modulo
                    | TokenType::LParen | TokenType::Dot => {
                    self.next_token();
                    if self.current_token.token_type == TokenType::LParen {
                        left_exp = match self.parse_call_expression(left_exp, steps - 1) {
                            Ok(v) => v,
                            Err(e) => {
                                return Err(e);
                            },
                        };
                    } else {
                        left_exp = match self.parse_infix(left_exp, steps - 1) {
                            Ok(v) => v,
                            Err(e) => {
                                return Err(e);
                            },
                        };
                    }
                },
                _ => {
                    return Ok(left_exp);
                },
            }
            steps = steps - 1;
        }

        Ok(left_exp)
    }

    /// Parses the expression form the current token can start.
    fn parse_prefix(&mut self, fuel: u64) -> (r: Result<ast::Expression, ParserError>)
        requires
            old(self).wf(),
        ensures
            final(self).wf(),
        decreases fuel, 4int,
    {
        if fuel == 0 {
            return Err(budget_error());
        }
        match self.current_token.token_type {
            TokenType::Ident => Ok(
                ast::Expression::Identifier(
                    ast::Identifier {
                        token: self.current_token.clone(),
                        value: self.current_token.literal.clone(),
                    },
                ),
            ),
            TokenType::Int => self.parse_integer_literal(),
            TokenType::String => self.parse_string_literal(),
            TokenType::Bang | TokenType::Minus => self.parse_prefix_expression(fuel - 1),
            TokenType::True | TokenType::False => self.parse_boolean(),
            TokenType::LParen => self.parse_grouped_expression(fuel - 1),
            TokenType::LBracket => self.parse_array_literal(fuel - 1),
            TokenType::If => self.parse_if_expression(fuel - 1),
            TokenType::Function => self.parse_function_literal(fuel - 1),
            TokenType::New => self.parse_new_expression(fuel - 1),
            TokenType::This => self.parse_this_expression(),
            TokenType::Super => self.parse_super_expression(),
            TokenType::Match => self.parse_match_expression(fuel - 1),
            _ => Err(unexpected("no prefix parse rule for this token")),
        }
    }

    /// Parses the infix form the current token continues.
    fn parse_infix(&mut self, left: ast::Expression, fuel: u64) -> (r: Result<
        ast::Expression,
        ParserError,
    >)
        requires
            old(self).wf(),
        ensures
            final(self).wf(),
        decreases fuel, 4int,
    {
        if fuel == 0 {
            return Err(budget_error());
        }
        match self.current_token.token_type {
            TokenType::Plus | TokenType::Minus | TokenType::Slash | TokenType::Asterisk
                | TokenType::Eq | TokenType::NotEq | TokenType::Lt | TokenType::Gt
                | TokenType::Power | TokenType::And | TokenType::Or | TokenType::Modulo
                | TokenType::Assign => self.parse_infix_expression(left, fuel - 1),
            TokenType::LParen => self.parse_call_expression(left, fuel - 1),
            TokenType::Dot => self.parse_property_access_expression(left),
            _ => Err(unexpected("no infix parse rule for this token")),
        }
    }

    /// Parses an integer literal into its value.
    fn parse_integer_literal(&mut self) -> (r: Result<ast::Expression, ParserError>)
        requires
            old(self).wf(),
        ensures
            final(self).wf(),
            *final(self) == *old(self),
    {
        let value = match parse_i64(self.current_token.literal.as_str()) {
            Some(v) => v,
            None => {
                return Err(unexpected("could not parse the literal as an integer"));
            },
        };

        Ok(
            ast::Expression::IntegerLiteral(
                ast::IntegerLiteral { token: self.current_token.clone(), value },
            ),
        )
    }

    /// Parses a string literal.
    fn parse_string_literal(&mut self) -> (r: Result<ast::Expression, ParserError>)
        requires
            old(self).wf(),
        ensures
            final(self).wf(),
    {
        Ok(
            ast::Expression::StringLiteral(
                ast::StringLiteral {
                    token: self.current_token.clone(),
                    value: self.current_token.literal.clone(),
                },
            ),
        )
    }

    /// Parses `!<operand>` or `-<operand>`.
    fn parse_prefix_expression(&mut self, fuel: u64) -> (r: Result<ast::Expression, ParserError>)
        requires
            old(self).wf(),
        ensures
            final(self).wf(),
        decreases fuel, 4int,
    {
        if fuel == 0 {
            return Err(budget_error());
        }
        let token = self.current_token.clone();
        let operator = self.current_token.literal.clone();

        self.next_token();

        let right = match self.parse_expression(Precedence::Prefix, fuel - 1) {
            Ok(v) => v,
            Err(e) => {
                return Err(e);
            },
        };

        Ok(ast::Expression::Prefix(ast::PrefixExpression { token, operator, right: Box::new(right) }))
    }

    /// Parses `<left> <operator> <right>` at the operator's precedence.
    fn parse_infix_expression(&mut self, left: ast::Expression, fuel: u64) -> (r: Result<
        ast::Expression,
        ParserError,
    >)
        requires
            old(self).wf(),
        ensures
            final(self).wf(),
        decreases fuel, 4int,
    {
        if fuel == 0 {
            return Err(budget_error());
        }
        let token = self.current_token.clone();
        let operator = self.current_token.literal.clone();
        let precedence = self.current_precedence();
        self.next_token();
        let right = match self.parse_expression(precedence, fuel - 1) {
            Ok(v) => v,
            Err(e) => {
                return Err(e);
            },
        };

        Ok(
            ast::Expression::Infix(
                ast::InfixExpression {
                    token,
                    left: Box::new(left),
                    operator,
                    right: Box::new(right),
                },
            ),
        )
    }

    /// Parses `true` or `false`.
    fn parse_boolean(&mut self) -> (r: Result<ast::Expression, ParserError>)
        requires
            old(self).wf(),
        ensures
            final(self).wf(),
    {
        Ok(
            ast::Expression::Boolean(
                ast::BooleanLiteral {
                    token: self.current_token.clone(),
                    value: self.current_token_is(TokenType::True),
                },
            ),
        )
    }

    /// Parses `( <expression> )`.
    fn parse_grouped_expression(&mut self, fuel: u64) -> (r: Result<ast::Expression, ParserError>)
        requires
            old(self).wf(),
        ensures
            final(self).wf(),
        decreases fuel, 4int,
    {
        if fuel == 0 {
            return Err(budget_error());
        }
        self.next_token();
        let exp = match self.parse_expression(Precedence::Lowest, fuel - 1) {
            Ok(v) => v,
            Err(e) => {
                return Err(e);
            },
        };
        if !self.expect_peek(TokenType::RParen) {
            return Err(unexpected("expected ')' to close the group"));
        }
        Ok(exp)
    }

    /// Parses `[ <elements> ]`.
    fn parse_array_literal(&mut self, fuel: u64) -> (r: Result<ast::Expression, ParserError>)
        requires
            old(self).wf(),
        ensures
            final(self).wf(),
        decreases fuel, 4int,
    {
        if fuel == 0 {
            return Err(budget_error());
        }
        let token = self.current_token.clone();
        let elements = match self.parse_expression_list(TokenType::RBracket, fuel - 1) {
            Ok(v) => v,
            Err(e) => {
                return Err(e);
            },
        };
        Ok(ast::Expression::ArrayLiteral(ast::ArrayLiteral { token, elements }))
    }

    /// Parses the statements of a block up to its closing brace.
    fn parse_block_statement(&mut self, fuel: u64) -> (r: Result<ast::BlockStatement, ParserError>)
        requires
            old(self).wf(),
        ensures
            final(self).wf(),
        decreases fuel, 4int,
    {
        if fuel == 0 {
            return Err(budget_error());
        }
        let token = self.current_token.clone();
        let mut statements: Vec<ast::Statement> = Vec::new();
        self.next_token();

        let mut steps: u64 = fuel - 1;
        while !self.current_token_is(TokenType::RBrace) && !self.current_token_is(TokenType::Eof)
            invariant
                self.wf(),
                steps < fuel,
            decreases steps,
        {
            if steps == 0 {
                return Err(budget_error());
            }
            let stmt = match self.parse_statement(steps - 1) {
                Ok(v) => v,
                Err(e) => {
                    return Err(e);
                },
            };
            statements.push(stmt);
            self.next_token();
            steps = steps - 1;
        }

        Ok(ast::BlockStatement { token, statements })
    }

    /// Parses `if (<condition>) { <consequence> }` with an optional
    /// `else { <alternative> }`.
    fn parse_if_expression(&mut self, fuel: u64) -> (r: Result<ast::Expression, ParserError>)
        requires
            old(self).wf(),
        ensures
            final(self).wf(),
        decreases fuel, 4int,
    {
        if fuel == 0 {
            return Err(budget_error());
        }
        let token = self.current_token.clone();

        if !self.expect_peek(TokenType::LParen) {
            return Err(unexpected("expected '(' after 'if'"));
        }

        self.next_token();
        let condition = match self.parse_expression(Precedence::Lowest, fuel - 1) {
            Ok(v) => v,
            Err(e) => {
                return Err(e);
            },
        };

        if !self.expect_peek(TokenType::RParen) {
            return Err(unexpected("expected ')' after the condition"));
        }

        if !self.expect_peek(TokenType::LBrace) {
            return Err(unexpected("expected a block after ')'"));
        }

        let consequence = match self.parse_block_statement(fuel - 1) {
            Ok(v) => v,
            Err(e) => {
                return Err(e);
            },
        };

        let alternative = if self.peek_token_is(TokenType::Else) {
            self.next_token();
            if !self.expect_peek(TokenType::LBrace) {
                return Err(unexpected("expected a block after 'else'"));
            }
            match self.parse_block_statement(fuel - 1) {
                Ok(v) => Some(v),
                Err(e) => {
                    return Err(e);
                },
            }
        } else {
            None
        };

        Ok(
            ast::Expression::If(
                ast::IfExpression { token, condition: Box::new(condition), consequence, alternative },
            ),
        )
    }

    /// Parses `fn(<parameters>) { <body> }`.
    fn parse_function_literal(&mut self, fuel: u64) -> (r: Result<ast::Expression, ParserError>)
        requires
            old(self).wf(),
        ensures
            final(self).wf(),
        decreases fuel, 4int,
    {
        if fuel == 0 {
            return Err(budget_error());
        }
        let token = self.current_token.clone();

        if !self.expect_peek(TokenType::LParen) {
            return Err(unexpected("expected '(' after 'fn'"));
        }

        let parameters = match self.parse_function_parameters() {
            Ok(v) => v,
            Err(e) => {
                return Err(e);
            },
        };

        if !self.expect_peek(TokenType::LBrace) {
            return Err(unexpected("expected a block after the parameters"));
        }

        let body = match self.parse_block_statement(fuel - 1) {
            Ok(v) => v,
            Err(e) => {
                return Err(e);
            },
        };

        Ok(ast::Expression::FunctionLiteral(ast::FunctionLiteral { token, parameters, body }))
    }

    /// Parses a comma-separated parameter list up to its closing parenthesis.
    fn parse_function_parameters(&mut self) -> (r: Result<Vec<ast::Identifier>, ParserError>)
        requires
            old(self).wf(),
        ensures
            final(self).wf(),
    {
        let mut identifiers: Vec<ast::Identifier> = Vec::new();

        if self.peek_token_is(TokenType::RParen) {
            self.next_token();
            return Ok(identifiers);
        }

        self.next_token();

        identifiers.push(
            ast::Identifier {
                token: self.current_token.clone(),
                value: self.current_token.literal.clone(),
            },
        );

        let mut steps: u64 = PARSE_FUEL;
        while self.peek_token_is(TokenType::Comma)
            invariant
                self.wf(),
            decreases steps,
        {
            if steps == 0 {
                return Err(budget_error());
            }
            self.next_token();
            self.next_token();
            identifiers.push(
                ast::Identifier {
                    token: self.current_token.clone(),
                    value: self.current_token.literal.clone(),
                },
            );
            steps = steps - 1;
        }

        if !self.expect_peek(TokenType::RParen) {
            return Err(unexpected("expected ')' after the parameters"));
        }

        Ok(identifiers)
    }

    /// Parses `<function>(<arguments>)`.
    fn parse_call_expression(&mut self, function: ast::Expression, fuel: u64) -> (r: Result<
        ast::Expression,
        ParserError,
    >)
        requires
            old(self).wf(),
        ensures
            final(self).wf(),
        decreases fuel, 4int,
    {
        if fuel == 0 {
            return Err(budget_error());
        }
        let token = self.current_token.clone();
        let arguments = match self.parse_expression_list(TokenType::RParen, fuel - 1) {
            Ok(v) => v,
            Err(e) => {
                return Err(e);
            },
        };
        Ok(
            ast::Expression::Call(
                ast::CallExpression { token, function: Box::new(function), arguments },
            ),
        )
    }

    /// Parses a comma-separated expression list up to the closing token.
    fn parse_expression_list(&mut self, end: TokenType, fuel: u64) -> (r: Result<
        Vec<ast::Expression>,
        ParserError,
    >)
        requires
            old(self).wf(),
        ensures
            final(self).wf(),
        decreases fuel, 4int,
    {
        if fuel == 0 {
            return Err(budget_error());
        }
        let mut list: Vec<ast::Expression> = Vec::new();

        if self.peek_token_is(end) {
            self.next_token();
            return Ok(list);
        }

        self.next_token();
        match self.parse_expression(Precedence::Lowest, fuel - 1) {
            Ok(v) => {
                list.push(v);
            },
            Err(e) => {
                return Err(e);
            },
        }

        let mut steps: u64 = fuel - 1;
        while self.peek_token_is(TokenType::Comma)
            invariant
                self.wf(),
                steps < fuel,
            decreases steps,
        {
            if steps == 0 {
                return Err(budget_error());
            }
            self.next_token();
            self.next_token();
            match self.parse_expression(Precedence::Lowest, steps - 1) {
                Ok(v) => {
                    list.push(v);
                },
                Err(e) => {
                    return Err(e);
                },
            }
            steps = steps - 1;
        }

        if !self.expect_peek(end) {
            return Err(unexpected("expected the list's closing token"));
        }

        Ok(list)
    }

    /// Parses `<left>.<property>`.
    fn parse_property_access_expression(&mut self, left: ast::Expression) -> (r: Result<
        ast::Expression,
        ParserError,
    >)
        requires
            old(self).wf(),
        ensures
            final(self).wf(),
    {
        let token = self.current_token.clone();

        if !self.expect_peek(TokenType::Ident) {
            return Err(unexpected("expected an identifier after '.'"));
        }

        let property = ast::Identifier {
            token: self.current_token.clone(),
            value: self.current_token.literal.clone(),
        };

        Ok(
            ast::Expression::PropertyAccess(
                ast::PropertyAccessExpression { token, left: Box::new(left), property },
            ),
        )
    }

    /// Parses `new <class>(<arguments>)`.
    fn parse_new_expression(&mut self, fuel: u64) -> (r: Result<ast::Expression, ParserError>)
        requires
            old(self).wf(),
        ensures
            final(self).wf(),
        decreases fuel, 4int,
    {
        if fuel == 0 {
            return Err(budget_error());
        }
        let token = self.current_token.clone();

        if !self.expect_peek(TokenType::Ident) {
            return Err(unexpected("expected an identifier after 'new'"));
        }

        let class_name = ast::Identifier {
            token: self.current_token.clone(),
            value: self.current_token.literal.clone(),
        };

        if !self.expect_peek(TokenType::LParen) {
            return Err(unexpected("expected '(' after the class name"));
        }

        let arguments = match self.parse_expression_list(TokenType::RParen, fuel - 1) {
            Ok(v) => v,
            Err(e) => {
                return Err(e);
            },
        };

        Ok(ast::Expression::New(ast::NewExpression { token, class_name, arguments }))
    }

    /// Parses `this`.
    fn parse_this_expression(&mut self) -> (r: Result<ast::Expression, ParserError>)
        requires
            old(self).wf(),
        ensures
            final(self).wf(),
    {
        Ok(ast::Expression::This(ast::ThisExpression { token: self.current_token.clone() }))
    }

    /// Parses `super`.
    fn parse_super_expression(&mut self) -> (r: Result<ast::Expression, ParserError>)
        requires
            old(self).wf(),
        ensures
            final(self).wf(),
    {
        Ok(ast::Expression::Super(ast::SuperExpression { token: self.current_token.clone() }))
    }

    /// Parses `match <value> { <arms> }`.
    fn parse_match_expression(&mut self, fuel: u64) -> (r: Result<ast::Expression, ParserError>)
        requires
            old(self).wf(),
        ensures
            final(self).wf(),
        decreases fuel, 4int,
    {
        if fuel == 0 {
            return Err(budget_error());
        }
        let token = self.current_token.clone();

        self.next_token();
        let value = match self.parse_expression(Precedence::Lowest, fuel - 1) {
            Ok(v) => v,
            Err(e) => {
                return Err(e);
            },
        };

        if !self.expect_peek(TokenType::LBrace) {
            return Err(unexpected("expected a block after the match value"));
        }

        let mut arms: Vec<ast::MatchArm> = Vec::new();
        self.next_token();

        let mut steps: u64 = fuel - 1;
        while !self.current_token_is(TokenType::RBrace) && !self.current_token_is(TokenType::Eof)
            invariant
                self.wf(),
                steps < fuel,
            decreases steps,
        {
            if steps == 0 {
                return Err(budget_error());
            }
            match self.parse_match_arm(steps - 1) {
                Ok(arm) => {
                    arms.push(arm);
                },
                Err(e) => {
                    return Err(e);
                },
            }

            if self.current_token_is(TokenType::Comma) {
                self.next_token();
            } else if !self.current_token_is(TokenType::RBrace) {
                return Err(unexpected("expected ',' or the closing brace after a match arm"));
            }
            steps = steps - 1;
        }

        Ok(ast::Expression::Match(ast::MatchExpression { token, value: Box::new(value), arms }))
    }

    /// Parses one match arm: a pattern, an optional guard, `=>`, and the
    /// arm's expression.
    fn parse_match_arm(&mut self, fuel: u64) -> (r: Result<ast::MatchArm, ParserError>)
        requires
            old(self).wf(),
        ensures
            final(self).wf(),
        decreases fuel, 4int,
    {
        if fuel == 0 {
            return Err(budget_error());
        }
        let pattern = match self.parse_pattern(fuel - 1) {
            Ok(v) => v,
            Err(e) => {
                return Err(e);
            },
        };

        self.next_token();

        let guard = if self.current_token_is(TokenType::If) {
            self.next_token();
            let guard_expr = match self.parse_expression(Precedence::Lowest, fuel - 1) {
                Ok(v) => v,
                Err(e) => {
                    return Err(e);
                },
            };
            self.next_token();
            Some(guard_expr)
        } else {
            None
        };

        if !self.current_token_is(TokenType::Arrow) {
            return Err(unexpected("expected '=>' after the pattern"));
        }
        self.next_token();

        let body_expr = match self.parse_expression(Precedence::Lowest, fuel - 1) {
            Ok(v) => v,
            Err(e) => {
                return Err(e);
            },
        };

        self.next_token();

        let mut statements: Vec<ast::Statement> = Vec::new();
        statements.push(
            ast::Statement::Expression(
                ast::ExpressionStatement {
                    token: Token::new(TokenType::Ident, String::from_str("expr")),
                    expression: body_expr,
                },
            ),
        );
        let consequence = ast::BlockStatement {
            token: Token::new(TokenType::LBrace, String::from_str("{")),
            statements,
        };

        Ok(ast::MatchArm { pattern, guard, consequence })
    }

    /// Parses one pattern of a match arm.
    fn parse_pattern(&mut self, fuel: u64) -> (r: Result<ast::Pattern, ParserError>)
        requires
            old(self).wf(),
        ensures
            final(self).wf(),
        decreases fuel, 4int,
    {
        if fuel == 0 {
            return Err(budget_error());
        }
        match self.current_token.token_type {
            TokenType::Int | TokenType::String | TokenType::True | TokenType::False => {
                let expr = match self.parse_prefix(fuel - 1) {
                    Ok(v) => v,
                    Err(e) => {
                        return Err(e);
                    },
                };
                if self.peek_token_is(TokenType::Range) {
                    self.next_token();
                    return self.parse_range_pattern(expr, fuel - 1);
                }
                Ok(ast::Pattern::Literal(expr))
            },
            TokenType::Ident => {
                if str_eq(self.current_token.literal.as_str(), "_") {
                    Ok(ast::Pattern::Wildcard)
                } else {
                    let ident = ast::Identifier {
                        token: self.current_token.clone(),
                        value: self.current_token.literal.clone(),
                    };
                    Ok(ast::Pattern::Identifier(ident))
                }
            },
            TokenType::LBrace | TokenType::LBracket => {
                let closing_bracket = if self.current_token_is(TokenType::LBrace) {
                    TokenType::RBrace
                } else {
                    TokenType::RBracket
                };

                let mut patterns: Vec<ast::Pattern> = Vec::new();
                self.next_token();

                let mut steps: u64 = fuel - 1;
                while !self.current_token_is(closing_bracket) && !self.current_token_is(
                    TokenType::Eof,
                )
                    invariant
                        self.wf(),
                        steps < fuel,
                    decreases steps,
                {
                    if steps == 0 {
                        return Err(budget_error());
                    }
                    match self.parse_pattern(steps - 1) {
                        Ok(v) => {
                            patterns.push(v);
                        },
                        Err(e) => {
                            return Err(e);
                        },
                    }

                    self.next_token();

                    if self.current_token_is(TokenType::Comma) {
                        self.next_token();
                    } else if !self.current_token_is(closing_bracket) {
                        return Err(unexpected("expected ',' or the closing bracket of the pattern"));
                    }
                    steps = steps - 1;
                }

                if !self.current_token_is(closing_bracket) {
                    return Err(unexpected("expected the closing bracket of the pattern"));
                }

                Ok(ast::Pattern::Tuple(patterns))
            },
            _ => Err(unexpected("unexpected token in a pattern")),
        }
    }

    /// Parses `<start>..<end>`, entered on the `..`.
    fn parse_range_pattern(&mut self, start_expr: ast::Expression, fuel: u64) -> (r: Result<
        ast::Pattern,
        ParserError,
    >)
        requires
            old(self).wf(),
        ensures
            final(self).wf(),
        decreases fuel, 4int,
    {
        if fuel == 0 {
            return Err(budget_error());
        }
        if !self.current_token_is(TokenType::Range) {
            return Err(unexpected("expected '..' in the range pattern"));
        }

        self.next_token();
        let end_expr = match self.parse_prefix(fuel - 1) {
            Ok(v) => v,
            Err(e) => {
                return Err(e);
            },
        };

        Ok(
            ast::Pattern::Range(
                ast::RangePattern {
                    start: Box::new(start_expr),
                    end: Box::new(end_expr),
                    inclusive: false,
                },
            ),
        )
    }

    /// Parses `class <name> [extends <super>] { <members> }`.
    fn parse_class_declaration(&mut self, fuel: u64) -> (r: Result<ast::Statement, ParserError>)
        requires
            old(self).wf(),
        ensures
            final(self).wf(),
        decreases fuel, 4int,
    {
        if fuel == 0 {
            return Err(budget_error());
        }
        let token = self.current_token.clone();

        if !self.expect_peek(TokenType::Ident) {
            return Err(unexpected("expected an identifier after 'class'"));
        }

        let name = ast::Identifier {
            token: self.current_token.clone(),
            value: self.current_token.literal.clone(),
        };

        let super_class = if self.peek_token_is(TokenType::Extends) {
            self.next_token();
            if !self.expect_peek(TokenType::Ident) {
                return Err(unexpected("expected a superclass name after 'extends'"));
            }
            Some(
                ast::Identifier {
                    token: self.current_token.clone(),
                    value: self.current_token.literal.clone(),
                },
            )
        } else {
            None
        };

        if !self.expect_peek(TokenType::LBrace) {
            return Err(unexpected("expected a block after the class name"));
        }

        let mut properties: Vec<ast::PropertyDeclaration> = Vec::new();
        let mut methods: Vec<ast::MethodDeclaration> = Vec::new();

        self.next_token();

        let mut steps: u64 = fuel - 1;
        while !self.current_token_is(TokenType::RBrace) && !self.current_token_is(TokenType::Eof)
            invariant
                self.wf(),
                steps < fuel,
            decreases steps,
        {
            if steps == 0 {
                return Err(budget_error());
            }
            let (access_modifier, is_static) = self.parse_access_modifier_and_static();

            if self.current_token_is(TokenType::Let) {
                match self.parse_property_declaration(access_modifier, is_static, steps - 1) {
                    Ok(prop) => {
                        properties.push(prop);
                    },
                    Err(e) => {
                        return Err(e);
                    },
                }
            } else if self.current_token_is(TokenType::Function) {
                match self.parse_method_declaration(access_modifier, is_static, steps - 1) {
                    Ok(method) => {
                        methods.push(method);
                    },
                    Err(e) => {
                        return Err(e);
                    },
                }
            } else if self.current_token_is(TokenType::Ident) {
                if self.peek_token_is(TokenType::LParen) {
                    match self.parse_method_declaration_without_fn(
                        access_modifier,
                        is_static,
                        steps - 1,
                    ) {
                        Ok(method) => {
                            methods.push(method);
                        },
                        Err(e) => {
                            return Err(e);
                        },
                    }
                } else if self.peek_token_is(TokenType::Assign) || self.peek_token_is(
                    TokenType::Semicolon,
                ) {
                    match self.parse_property_declaration_without_let(
                        access_modifier,
                        is_static,
                        steps - 1,
                    ) {
                        Ok(prop) => {
                            properties.push(prop);
                        },
                        Err(e) => {
                            return Err(e);
                        },
                    }
                } else {
                    return Err(unexpected("expected a member declaration in the class body"));
                }
            } else {
                return Err(unexpected("expected 'let', 'fn' or an identifier in the class body"));
            }
            steps = steps - 1;
        }

        if !self.current_token_is(TokenType::RBrace) {
            return Err(unexpected("expected the closing brace of the class"));
        }

        if self.peek_token_is(TokenType::Semicolon) {
            self.next_token();
        }

        Ok(
            ast::Statement::ClassDeclaration(
                ast::ClassDeclaration {
                    token,
                    name,
                    super_class,
                    interfaces: Vec::new(),
                    properties,
                    methods,
                },
            ),
        )
    }

    /// Parses `struct <name> { <properties> }`.
    fn parse_struct_declaration(&mut self, fuel: u64) -> (r: Result<ast::Statement, ParserError>)
        requires
            old(self).wf(),
        ensures
            final(self).wf(),
        decreases fuel, 4int,
    {
        if fuel == 0 {
            return Err(budget_error());
        }
        let token = self.current_token.clone();

        if !self.expect_peek(TokenType::Ident) {
            return Err(unexpected("expected an identifier after 'struct'"));
        }

        let name = ast::Identifier {
            token: self.current_token.clone(),
            value: self.current_token.literal.clone(),
        };

        if !self.expect_peek(TokenType::LBrace) {
            return Err(unexpected("expected a block after the struct name"));
        }

        let mut properties: Vec<ast::PropertyDeclaration> = Vec::new();
        self.next_token();

        let mut steps: u64 = fuel - 1;
        while !self.current_token_is(TokenType::RBrace) && !self.current_token_is(TokenType::Eof)
            invariant
                self.wf(),
                steps < fuel,
            decreases steps,
        {
            if steps == 0 {
                return Err(budget_error());
            }
            let (access_modifier, is_static) = self.parse_access_modifier_and_static();
            if self.current_token_is(TokenType::Let) {
                match self.parse_property_declaration(access_modifier, is_static, steps - 1) {
                    Ok(prop) => {
                        properties.push(prop);
                    },
                    Err(e) => {
                        return Err(e);
                    },
                }
            } else {
                return Err(unexpected("expected 'let' in the struct body"));
            }
            steps = steps - 1;
        }

        if !self.current_token_is(TokenType::RBrace) {
            return Err(unexpected("expected the closing brace of the struct"));
        }

        if self.peek_token_is(TokenType::Semicolon) {
            self.next_token();
        }

        Ok(ast::Statement::StructDeclaration(ast::StructDeclaration { token, name, properties }))
    }

    /// Parses `interface <name> { <signatures> }`.
    fn parse_interface_declaration(&mut self, fuel: u64) -> (r: Result<ast::Statement, ParserError>)
        requires
            old(self).wf(),
        ensures
            final(self).wf(),
        decreases fuel, 4int,
    {
        if fuel == 0 {
            return Err(budget_error());
        }
        let token = self.current_token.clone();

        if !self.expect_peek(TokenType::Ident) {
            return Err(unexpected("expected an identifier after 'interface'"));
        }

        let name = ast::Identifier {
            token: self.current_token.clone(),
            value: self.current_token.literal.clone(),
        };

        if !self.expect_peek(TokenType::LBrace) {
            return Err(unexpected("expected a block after the interface name"));
        }

        let mut method_signatures: Vec<ast::MethodSignatureDeclaration> = Vec::new();
        self.next_token();

        let mut steps: u64 = fuel - 1;
        while !self.current_token_is(TokenType::RBrace) && !self.current_token_is(TokenType::Eof)
            invariant
                self.wf(),
                steps < fuel,
            decreases steps,
        {
            if steps == 0 {
                return Err(budget_error());
            }
            match self.parse_method_signature_declaration() {
                Ok(signature) => {
                    method_signatures.push(signature);
                },
                Err(e) => {
                    return Err(e);
                },
            }
            steps = steps - 1;
        }

        if !self.current_token_is(TokenType::RBrace) {
            return Err(unexpected("expected the closing brace of the interface"));
        }

        if self.peek_token_is(TokenType::Semicolon) {
            self.next_token();
        }

        Ok(
            ast::Statement::InterfaceDeclaration(
                ast::InterfaceDeclaration { token, name, method_signatures },
            ),
        )
    }

    /// Parses the access and static modifiers before a member, in any order.
    fn parse_access_modifier_and_static(&mut self) -> (r: (AccessModifier, bool))
        requires
            old(self).wf(),
        ensures
            final(self).wf(),
    {
        let mut access_modifier = AccessModifier::Private;
        let mut is_static = false;

        let mut steps: u64 = PARSE_FUEL;
        loop
            invariant
                self.wf(),
            decreases steps,
        {
            if steps == 0 {
                break ;
            }
            if self.current_token_is(TokenType::Public) {
                access_modifier = AccessModifier::Public;
                self.next_token();
            } else if self.current_token_is(TokenType::Private) {
                access_modifier = AccessModifier::Private;
                self.next_token();
            } else if self.current_token_is(TokenType::Static) {
                is_static = true;
                self.next_token();
            } else {
                break ;
            }
            steps = steps - 1;
        }
        (access_modifier, is_static)
    }

    /// Parses `let <name> [= <value>];` as a member property.
    fn parse_property_declaration(
        &mut self,
        access_modifier: AccessModifier,
        is_static: bool,
        fuel: u64,
    ) -> (r: Result<ast::PropertyDeclaration, ParserError>)
        requires
            old(self).wf(),
        ensures
            final(self).wf(),
        decreases fuel, 4int,
    {
        if fuel == 0 {
            return Err(budget_error());
        }
        let token = self.current_token.clone();

        if !self.expect_peek(TokenType::Ident) {
            return Err(unexpected("expected an identifier after 'let'"));
        }

        let name = ast::Identifier {
            token: self.current_token.clone(),
            value: self.current_token.literal.clone(),
        };

        let value = if self.peek_token_is(TokenType::Assign) {
            self.next_token();
            self.next_token();
            match self.parse_expression(Precedence::Lowest, fuel - 1) {
                Ok(v) => Some(v),
                Err(e) => {
                    return Err(e);
                },
            }
        } else {
            None
        };

        if !self.expect_peek(TokenType::Semicolon) {
            return Err(unexpected("expected ';' after the property declaration"));
        }
        self.next_token();

        Ok(ast::PropertyDeclaration { token, name, value, access_modifier, is_static })
    }

    /// Parses `fn <name>(<parameters>) { <body> }` as a member method.
    fn parse_method_declaration(
        &mut self,
        access_modifier: AccessModifier,
        is_static: bool,
        fuel: u64,
    ) -> (r: Result<ast::MethodDeclaration, ParserError>)
        requires
            old(self).wf(),
        ensures
            final(self).wf(),
        decreases fuel, 4int,
    {
        if fuel == 0 {
            return Err(budget_error());
        }
        let token = self.current_token.clone();

        if !self.expect_peek(TokenType::Ident) {
            return Err(unexpected("expected an identifier after 'fn'"));
        }

        let name = ast::Identifier {
            token: self.current_token.clone(),
            value: self.current_token.literal.clone(),
        };

        if !self.expect_peek(TokenType::LParen) {
            return Err(unexpected("expected '(' after the method name"));
        }

        let parameters = match self.parse_function_parameters() {
            Ok(v) => v,
            Err(e) => {
                return Err(e);
            },
        };

        if !self.expect_peek(TokenType::LBrace) {
            return Err(unexpected("expected a block after the method parameters"));
        }

        let body = match self.parse_block_statement(fuel - 1) {
            Ok(v) => v,
            Err(e) => {
                return Err(e);
            },
        };
        self.next_token();

        Ok(ast::MethodDeclaration { token, name, parameters, body, access_modifier, is_static })
    }

    /// Parses `<name>(<parameters>) { <body> }`: a member method written
    /// without the `fn` keyword.
    fn parse_method_declaration_without_fn(
        &mut self,
        access_modifier: AccessModifier,
        is_static: bool,
        fuel: u64,
    ) -> (r: Result<ast::MethodDeclaration, ParserError>)
        requires
            old(self).wf(),
        ensures
            final(self).wf(),
        decreases fuel, 4int,
    {
        if fuel == 0 {
            return Err(budget_error());
        }
        let token = self.current_token.clone();

        let name = ast::Identifier {
            token: self.current_token.clone(),
            value: self.current_token.literal.clone(),
        };

        if !self.expect_peek(TokenType::LParen) {
            return Err(unexpected("expected '(' after the method name"));
        }

        let parameters = match self.parse_function_parameters() {
            Ok(v) => v,
            Err(e) => {
                return Err(e);
            },
        };

        if !self.expect_peek(TokenType::LBrace) {
            return Err(unexpected("expected a block after the method parameters"));
        }

        let body = match self.parse_block_statement(fuel - 1) {
            Ok(v) => v,
            Err(e) => {
                return Err(e);
            },
        };
        self.next_token();

        Ok(ast::MethodDeclaration { token, name, parameters, body, access_modifier, is_static })
    }

    /// Parses `<name> [= <value>];`: a member property written without the
    /// `let` keyword.
    fn parse_property_declaration_without_let(
        &mut self,
        access_modifier: AccessModifier,
        is_static: bool,
        fuel: u64,
    ) -> (r: Result<ast::PropertyDeclaration, ParserError>)
        requires
            old(self).wf(),
        ensures
            final(self).wf(),
        decreases fuel, 4int,
    {
        if fuel == 0 {
            return Err(budget_error());
        }
        let token = self.current_token.clone();

        let name = ast::Identifier {
            token: self.current_token.clone(),
            value: self.current_token.literal.clone(),
        };

        let value = if self.peek_token_is(TokenType::Assign) {
            self.next_token();
            self.next_token();
            match self.parse_expression(Precedence::Lowest, fuel - 1) {
                Ok(v) => Some(v),
                Err(e) => {
                    return Err(e);
                },
            }
        } else {
            None
        };

        if !self.expect_peek(TokenType::Semicolon) {
            return Err(unexpected("expected ';' after the property declaration"));
        }
        self.next_token();

        Ok(ast::PropertyDeclaration { token, name, value, access_modifier, is_static })
    }

    /// Parses `fn <name>(<parameters>);`: one signature of an interface.
    fn parse_method_signature_declaration(&mut self) -> (r: Result<
        ast::MethodSignatureDeclaration,
        ParserError,
    >)
        requires
            old(self).wf(),
        ensures
            final(self).wf(),
    {
        if !self.current_token_is(TokenType::Function) {
            return Err(unexpected("expected 'fn' for the method signature"));
        }
        let token = self.current_token.clone();

        if !self.expect_peek(TokenType::Ident) {
            return Err(unexpected("expected an identifier after 'fn'"));
        }

        let name = ast::Identifier {
            token: self.current_token.clone(),
            value: self.current_token.literal.clone(),
        };

        if !self.expect_peek(TokenType::LParen) {
            return Err(unexpected("expected '(' after the method name"));
        }

        let parameters = match self.parse_function_parameters() {
            Ok(v) => v,
            Err(e) => {
                return Err(e);
            },
        };

        if !self.expect_peek(TokenType::Semicolon) {
            return Err(unexpected("expected ';' after the method signature"));
        }
        self.next_token();

        Ok(ast::MethodSignatureDeclaration { token, name, parameters })
    }

    /// Whether the next token has the given type.
    fn peek_token_is(&self, t: TokenType) -> bool {
        self.next_token.token_type == t
    }

    /// Whether the current token has the given type.
    fn current_token_is(&self, t: TokenType) -> bool {
        self.current_token.token_type == t
    }

    /// Steps past the next token when it has the given type; else records an
    /// error and stays.
    fn expect_peek(&mut self, t: TokenType) -> (r: bool)
        requires
            old(self).wf(),
        ensures
            final(self).wf(),
    {
        if self.peek_token_is(t) {
            self.next_token();
            true
        } else {
            self.peek_error(t);
            false
        }
    }

    /// Records that the next token was not what the grammar expects.
    fn peek_error(&mut self, t: TokenType)
        requires
            old(self).wf(),
        ensures
            final(self).wf(),
    {
        self.errors.push(
            ParserError::UnexpectedToken(
                String::from_str("the next token is not what the grammar expects here"),
            ),
        );
    }

    /// The binding precedence of a token.
    fn get_precedence(token_type: &TokenType) -> Precedence {
        match token_type {
            TokenType::Eq | TokenType::NotEq => Precedence::Equals,
            TokenType::Lt | TokenType::Gt => Precedence::LessGreater,
            TokenType::Plus | TokenType::Minus => Precedence::Sum,
            TokenType::Slash | TokenType::Asterisk | TokenType::Modulo => Precedence::Product,
            TokenType::Power => Precedence::Power,
            TokenType::And => Precedence::And,
            TokenType::Or => Precedence::Or,
            TokenType::Assign => Precedence::Lowest,
            TokenType::LParen => Precedence::Call,
            TokenType::Dot => Precedence::Dot,
            TokenType::Range => Precedence::Range,
            TokenType::Arrow => Precedence::Arrow,
            _ => Precedence::Lowest,
        }
    }

    /// The binding precedence of the next token.
    fn peek_precedence(&self) -> Precedence {
        Self::get_precedence(&self.next_token.token_type)
    }

    /// The binding precedence of the current token.
    fn current_precedence(&self) -> Precedence {
        Self::get_precedence(&self.current_token.token_type)
    }
}

/// The error recorded when a descent runs out of its depth budget.
fn budget_error() -> ParserError {
    ParserError::UnexpectedToken(String::from_str("expression nested beyond the parse budget"))
}

/// An error at the current token, with a fixed description.
fn unexpected(reason: &str) -> ParserError {
    ParserError::UnexpectedToken(String::from_str(reason))
}

/// The value of a string of decimal digits.
pub open spec fn digits_value(s: Seq<char>, acc: int) -> int
    decreases s.len(),
{
    if s.len() == 0 {
        acc
    } else {
        digits_value(s.skip(1), acc * 10 + (s[0] as int - '0' as int))
    }
}

/// Whether every character of the sequence is a decimal digit.
pub open spec fn all_digits(s: Seq<char>) -> bool {
    forall|i: int| 0 <= i < s.len() ==> '0' <= #[trigger] s[i] <= '9'
}

/// Reads an unsigned decimal integer: `Some` exactly when the text is one or
/// more digits whose value fits `i64`.
pub fn parse_i64(s: &str) -> (r: Option<i64>)
    ensures
        r matches Some(v) ==> s@.len() > 0 && all_digits(s@) && v as int == digits_value(s@, 0),
        r is None ==> s@.len() == 0 || !all_digits(s@) || digits_value(s@, 0) > i64::MAX,
{
    let n = s.unicode_len();
    if n == 0 {
        return None;
    }
    let mut acc: i64 = 0;
    let mut i: usize = 0;
    proof {
        assert(s@.skip(0) =~= s@);
    }
    while i < n
        invariant
            i <= n,
            n == s@.len(),
            0 <= acc,
            forall|j: int| 0 <= j < i as int ==> '0' <= #[trigger] s@[j] <= '9',
            digits_value(s@, 0) == digits_value(s@.skip(i as int), acc as int),
        decreases n - i,
    {
        let c = s.get_char(i);
        let code = c as u32;
        if code < 48 || code > 57 {
            proof {
                assert(!('0' <= s@[i as int] <= '9'));
            }
            return None;
        }
        let digit = (code - 48) as i64;
        if acc > (i64::MAX - digit) / 10 {
            proof {
                if all_digits(s@) {
                    assert(s@.skip(i as int).skip(1) =~= s@.skip(i + 1));
                    assert(acc * 10 + digit > i64::MAX) by (nonlinear_arith)
                        requires
                            acc > (i64::MAX - digit as int) / 10,
                            0 <= digit <= 9,
                            acc >= 0,
                    ;
                    assert(digit as int == s@[i as int] as int - '0' as int);
                    assert forall|k: int| 0 <= k < s@.skip(i + 1).len() implies '0'
                        <= #[trigger] s@.skip(i + 1)[k] <= '9' by {
                        assert(s@.skip(i + 1)[k] == s@[k + i + 1]);
                    }
                    lemma_digits_value_grows(
                        s@.skip(i + 1),
                        acc * 10 + (s@[i as int] as int - '0' as int),
                    );
                }
            }
            return None;
        }
        proof {
            assert(s@.skip(i as int).skip(1) =~= s@.skip(i + 1));
        }
        acc = acc * 10 + digit;
        i = i + 1;
    }
    proof {
        assert(s@.skip(n as int).len() == 0);
    }
    Some(acc)
}

/// A digit string's value only grows as more digits follow.
proof fn lemma_digits_value_grows(s: Seq<char>, acc: int)
    requires
        acc >= 0,
        all_digits(s),
    ensures
        digits_value(s, acc) >= acc,
    decreases s.len(),
{
    if s.len() > 0 {
        assert forall|i: int| 0 <= i < s.skip(1).len() implies '0' <= #[trigger] s.skip(1)[i]
            <= '9' by {
            assert(s.skip(1)[i] == s[i + 1]);
        }
        assert(acc * 10 + (s[0] as int - '0' as int) >= acc) by (nonlinear_arith)
            requires
                acc >= 0,
                s[0] as int - '0' as int >= 0,
        ;
        lemma_digits_value_grows(s.skip(1), acc * 10 + (s[0] as int - '0' as int));
    }
}

} // verus!
