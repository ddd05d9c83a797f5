//! Tests of the compiler: literal lowering, operator lowering, and the
//! unknown-operator error.

use sofia::ast::{
    BooleanLiteral, Expression, ExpressionStatement, Identifier, InfixExpression, IntegerLiteral,
    PrefixExpression, Program, Statement,
};
use sofia::compiler::{Compiler, CompilerError};
use sofia::object::Object;
use sofia::opcode::Opcode;
use sofia::token::{Token, TokenType};

fn make_token() -> Token {
    Token::new(TokenType::Int, "".to_string())
}

fn make_program(stmts: Vec<Statement>) -> Program {
    Program { statements: stmts }
}

fn make_int_literal(value: i64) -> Expression {
    Expression::IntegerLiteral(IntegerLiteral { token: make_token(), value })
}

fn make_bool_literal(value: bool) -> Expression {
    Expression::Boolean(BooleanLiteral { token: make_token(), value })
}

#[allow(dead_code)]
fn make_identifier(value: String) -> Expression {
    Expression::Identifier(Identifier { token: make_token(), value })
}

#[test]
fn test_compiler_integer_literal() {
    let mut compiler = Compiler::new();
    let program = make_program(vec![Statement::Expression(ExpressionStatement {
        token: make_token(),
        expression: make_int_literal(42),
    })]);

    let result = compiler.compile(&program);
    assert!(result.is_ok());

    let instructions = result.unwrap();
    assert_eq!(instructions.bytes[0], Opcode::Constant.tag());
    assert_eq!(instructions.bytes[3], Opcode::Pop.tag());
    assert_eq!(instructions.constants.len(), 1);
    assert_eq!(instructions.constants[0], Object::Integer(42));
}

#[test]
fn test_compiler_boolean_literal() {
    let mut compiler = Compiler::new();

    let program_true = make_program(vec![Statement::Expression(ExpressionStatement {
        token: make_token(),
        expression: make_bool_literal(true),
    })]);

    let result = compiler.compile(&program_true);
    assert!(result.is_ok());

    let instructions = result.unwrap();
    assert_eq!(instructions.bytes[0], Opcode::True.tag());
    assert_eq!(instructions.bytes[1], Opcode::Pop.tag());

    let mut compiler2 = Compiler::new();
    let program_false = make_program(vec![Statement::Expression(ExpressionStatement {
        token: make_token(),
        expression: make_bool_literal(false),
    })]);

    let result2 = compiler2.compile(&program_false);
    assert!(result2.is_ok());

    let instructions2 = result2.unwrap();
    assert_eq!(instructions2.bytes[0], Opcode::False.tag());
    assert_eq!(instructions2.bytes[1], Opcode::Pop.tag());
}

#[test]
fn test_compiler_prefix_expression() {
    let mut compiler = Compiler::new();

    let program = make_program(vec![Statement::Expression(ExpressionStatement {
        token: make_token(),
        expression: Expression::Prefix(PrefixExpression {
            token: make_token(),
            operator: "-".to_string(),
            right: Box::new(make_int_literal(42)),
        }),
    })]);

    let result = compiler.compile(&program);
    assert!(result.is_ok());

    let instructions = result.unwrap();
    assert_eq!(instructions.bytes[0], Opcode::Constant.tag());
    assert_eq!(instructions.bytes[3], Opcode::Neg.tag());
}

#[test]
fn test_compiler_infix_expression() {
    let mut compiler = Compiler::new();

    let program = make_program(vec![Statement::Expression(ExpressionStatement {
        token: make_token(),
        expression: Expression::Infix(InfixExpression {
            token: make_token(),
            left: Box::new(make_int_literal(10)),
            operator: "+".to_string(),
            right: Box::new(make_int_literal(20)),
        }),
    })]);

    let result = compiler.compile(&program);
    assert!(result.is_ok());

    let instructions = result.unwrap();
    assert_eq!(instructions.bytes[0], Opcode::Constant.tag());
    assert_eq!(instructions.bytes[3], Opcode::Constant.tag());
    assert_eq!(instructions.bytes[6], Opcode::Add.tag());
    assert_eq!(instructions.constants.len(), 2);
    assert_eq!(instructions.constants[0], Object::Integer(10));
    assert_eq!(instructions.constants[1], Object::Integer(20));
}

#[test]
fn test_compiler_error_unknown_operator() {
    let mut compiler = Compiler::new();

    let program = make_program(vec![Statement::Expression(ExpressionStatement {
        token: make_token(),
        expression: Expression::Infix(InfixExpression {
            token: make_token(),
            left: Box::new(make_int_literal(10)),
            operator: "@@".to_string(),
            right: Box::new(make_int_literal(20)),
        }),
    })]);

    let result = compiler.compile(&program);
    assert!(result.is_err());

    if let Err(CompilerError::UnknownOperator(op)) = result {
        assert_eq!(op, "@@");
    } else {
        panic!("Expected UnknownOperator error");
    }
}

#[test]
fn test_compiler_multiple_statements() {
    let mut compiler = Compiler::new();

    let program = make_program(vec![
        Statement::Expression(ExpressionStatement {
            token: make_token(),
            expression: make_int_literal(1),
        }),
        Statement::Expression(ExpressionStatement {
            token: make_token(),
            expression: make_int_literal(2),
        }),
        Statement::Expression(ExpressionStatement {
            token: make_token(),
            expression: make_int_literal(3),
        }),
    ]);

    let result = compiler.compile(&program);
    assert!(result.is_ok());

    let instructions = result.unwrap();
    assert_eq!(instructions.constants.len(), 3);
    assert_eq!(instructions.constants[0], Object::Integer(1));
    assert_eq!(instructions.constants[1], Object::Integer(2));
    assert_eq!(instructions.constants[2], Object::Integer(3));
}
