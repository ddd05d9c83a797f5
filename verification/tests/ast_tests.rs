//! Tests of the syntax-tree printer on hand-built nodes.

use sofia::ast::{
    BlockStatement, Expression, ExpressionStatement, Identifier, IntegerLiteral, MatchArm,
    MatchExpression, Pattern, RangePattern, Statement, StringLiteral, StructPattern,
};
use sofia::token::{Token, TokenType};

fn int_literal(text: &str, value: i64) -> Expression {
    Expression::IntegerLiteral(IntegerLiteral {
        token: Token { token_type: TokenType::Int, literal: text.to_string() },
        value,
    })
}

fn block_of_int(text: &str, value: i64) -> BlockStatement {
    BlockStatement {
        token: Token { token_type: TokenType::LBrace, literal: "{".to_string() },
        statements: vec![Statement::Expression(ExpressionStatement {
            token: Token { token_type: TokenType::Int, literal: text.to_string() },
            expression: int_literal(text, value),
        })],
    }
}

#[test]
fn test_match_expression_display() {
    let token = Token { token_type: TokenType::Match, literal: "match".to_string() };
    let value = Box::new(Expression::Identifier(Identifier {
        token: Token { token_type: TokenType::Ident, literal: "x".to_string() },
        value: "x".to_string(),
    }));
    let arms = vec![
        MatchArm {
            pattern: Pattern::Literal(int_literal("1", 1)),
            guard: None,
            consequence: block_of_int("10", 10),
        },
        MatchArm {
            pattern: Pattern::Identifier(Identifier {
                token: Token { token_type: TokenType::Ident, literal: "y".to_string() },
                value: "y".to_string(),
            }),
            guard: None,
            consequence: block_of_int("20", 20),
        },
        MatchArm {
            pattern: Pattern::Wildcard,
            guard: None,
            consequence: block_of_int("30", 30),
        },
    ];

    let match_expr = MatchExpression { token, value, arms };

    let expected = "match x {\n    1 => 10\n    y => 20\n    _ => 30\n}";
    assert_eq!(match_expr.string(), expected);
}

#[test]
fn test_range_pattern_display() {
    let range_pattern_inclusive = RangePattern {
        start: Box::new(int_literal("1", 1)),
        end: Box::new(int_literal("5", 5)),
        inclusive: true,
    };
    assert_eq!(range_pattern_inclusive.string(), "1..=5");

    let range_pattern_exclusive = RangePattern {
        start: Box::new(int_literal("1", 1)),
        end: Box::new(int_literal("5", 5)),
        inclusive: false,
    };
    assert_eq!(range_pattern_exclusive.string(), "1..5");
}

#[test]
fn test_struct_pattern_display() {
    let name = Identifier {
        token: Token { token_type: TokenType::Ident, literal: "Point".to_string() },
        value: "Point".to_string(),
    };
    let fields = vec![
        (
            Identifier {
                token: Token { token_type: TokenType::Ident, literal: "x".to_string() },
                value: "x".to_string(),
            },
            Some(Pattern::Literal(int_literal("0", 0))),
        ),
        (
            Identifier {
                token: Token { token_type: TokenType::Ident, literal: "y".to_string() },
                value: "y".to_string(),
            },
            None,
        ),
    ];

    let struct_pattern = StructPattern { name, fields };
    assert_eq!(struct_pattern.string(), "Point { x: 0, y }");
}

#[test]
fn test_tuple_pattern_display() {
    let patterns = vec![
        Pattern::Literal(int_literal("1", 1)),
        Pattern::Identifier(Identifier {
            token: Token { token_type: TokenType::Ident, literal: "x".to_string() },
            value: "x".to_string(),
        }),
        Pattern::Literal(Expression::StringLiteral(StringLiteral {
            token: Token { token_type: TokenType::String, literal: "test".to_string() },
            value: "test".to_string(),
        })),
    ];

    let tuple_pattern = Pattern::Tuple(patterns);
    assert_eq!(tuple_pattern.string(), "(1, x, test)");
}
