//! The lexer walked over one source text that exercises every token kind.

use sofia::lexer::Lexer;
use sofia::token::TokenType;

#[test]
fn test_next_token() {
    let input = r#"
         let five = 5;
         let ten = 10;
 
         let add = fn(x, y) {
             x + y;
         };
 
         let result = add(five, ten);
         !-/*5;
         5 < 10 > 5;
 
         if (5 < 10) {
             return true;
         } else {
             return false;
         }
 
         10 == 10;
         10 != 9;
         "foobar"
         "foo bar"
         2 ** 3;
         true && false;
         true || false;
         10 % 3;
 
         class.new();
         iface.implements();
         obj.public;
         obj.private;
         MyClass.static;
         this.super;
         match (1..5) {
            1 => true,
            _ => false,
         };
         "#;

    let tests = vec![
        (TokenType::Let, "let"),
        (TokenType::Ident, "five"),
        (TokenType::Assign, "="),
        (TokenType::Int, "5"),
        (TokenType::Semicolon, ";"),
        (TokenType::Let, "let"),
        (TokenType::Ident, "ten"),
        (TokenType::Assign, "="),
        (TokenType::Int, "10"),
        (TokenType::Semicolon, ";"),
        (TokenType::Let, "let"),
        (TokenType::Ident, "add"),
        (TokenType::Assign, "="),
        (TokenType::Function, "fn"),
        (TokenType::LParen, "("),
        (TokenType::Ident, "x"),
        (TokenType::Comma, ","),
        (TokenType::Ident, "y"),
        (TokenType::RParen, ")"),
        (TokenType::LBrace, "{"),
        (TokenType::Ident, "x"),
        (TokenType::Plus, "+"),
        (TokenType::Ident, "y"),
        (TokenType::Semicolon, ";"),
        (TokenType::RBrace, "}"),
        (TokenType::Semicolon, ";"),
        (TokenType::Let, "let"),
        (TokenType::Ident, "result"),
        (TokenType::Assign, "="),
        (TokenType::Ident, "add"),
        (TokenType::LParen, "("),
        (TokenType::Ident, "five"),
        (TokenType::Comma, ","),
        (TokenType::Ident, "ten"),
        (TokenType::RParen, ")"),
        (TokenType::Semicolon, ";"),
        (TokenType::Bang, "!"),
        (TokenType::Minus, "-"),
        (TokenType::Slash, "/"),
        (TokenType::Asterisk, "*"),
        (TokenType::Int, "5"),
        (TokenType::Semicolon, ";"),
        (TokenType::Int, "5"),
        (TokenType::Lt, "<"),
        (TokenType::Int, "10"),
        (TokenType::Gt, ">"),
        (TokenType::Int, "5"),
        (TokenType::Semicolon, ";"),
        (TokenType::If, "if"),
        (TokenType::LParen, "("),
        (TokenType::Int, "5"),
        (TokenType::Lt, "<"),
        (TokenType::Int, "10"),
        (TokenType::RParen, ")"),
        (TokenType::LBrace, "{"),
        (TokenType::Return, "return"),
        (TokenType::True, "true"),
        (TokenType::Semicolon, ";"),
        (TokenType::RBrace, "}"),
        (TokenType::Else, "else"),
        (TokenType::LBrace, "{"),
        (TokenType::Return, "return"),
        (TokenType::False, "false"),
        (TokenType::Semicolon, ";"),
        (TokenType::RBrace, "}"),
        (TokenType::Int, "10"),
        (TokenType::Eq, "=="),
        (TokenType::Int, "10"),
        (TokenType::Semicolon, ";"),
        (TokenType::Int, "10"),
        (TokenType::NotEq, "!="),
        (TokenType::Int, "9"),
        (TokenType::Semicolon, ";"),
        (TokenType::String, "foobar"),
        (TokenType::String, "foo bar"),
        (TokenType::Int, "2"),
        (TokenType::Power, "**"),
        (TokenType::Int, "3"),
        (TokenType::Semicolon, ";"),
        (TokenType::True, "true"),
        (TokenType::And, "&&"),
        (TokenType::False, "false"),
        (TokenType::Semicolon, ";"),
        (TokenType::True, "true"),
        (TokenType::Or, "||"),
        (TokenType::False, "false"),
        (TokenType::Semicolon, ";"),
        (TokenType::Int, "10"),
        (TokenType::Modulo, "%"),
        (TokenType::Int, "3"),
        (TokenType::Semicolon, ";"),
        (TokenType::Class, "class"),
        (TokenType::Dot, "."),
        (TokenType::New, "new"),
        (TokenType::LParen, "("),
        (TokenType::RParen, ")"),
        (TokenType::Semicolon, ";"),
        (TokenType::Ident, "iface"),
        (TokenType::Dot, "."),
        (TokenType::Implements, "implements"),
        (TokenType::LParen, "("),
        (TokenType::RParen, ")"),
        (TokenType::Semicolon, ";"),
        (TokenType::Ident, "obj"),
        (TokenType::Dot, "."),
        (TokenType::Public, "public"),
        (TokenType::Semicolon, ";"),
        (TokenType::Ident, "obj"),
        (TokenType::Dot, "."),
        (TokenType::Private, "private"),
        (TokenType::Semicolon, ";"),
        (TokenType::Ident, "MyClass"),
        (TokenType::Dot, "."),
        (TokenType::Static, "static"),
        (TokenType::Semicolon, ";"),
        (TokenType::This, "this"),
        (TokenType::Dot, "."),
        (TokenType::Super, "super"),
        (TokenType::Semicolon, ";"),
        (TokenType::Match, "match"),
        (TokenType::LParen, "("),
        (TokenType::Int, "1"),
        (TokenType::Range, ".."),
        (TokenType::Int, "5"),
        (TokenType::RParen, ")"),
        (TokenType::LBrace, "{"),
        (TokenType::Int, "1"),
        (TokenType::Arrow, "=>"),
        (TokenType::True, "true"),
        (TokenType::Comma, ","),
        (TokenType::Ident, "_"),
        (TokenType::Arrow, "=>"),
        (TokenType::False, "false"),
        (TokenType::Comma, ","),
        (TokenType::RBrace, "}"),
        (TokenType::Semicolon, ";"),
        (TokenType::Eof, ""),
    ];

    let mut lexer = Lexer::new(input.to_string());

    for (i, (expected_type, expected_literal)) in tests.iter().enumerate() {
        let tok = lexer.next_token();
        assert_eq!(
            tok.token_type, *expected_type,
            "tests[{}] - wrong token type",
            i
        );
        assert_eq!(
            tok.literal, *expected_literal,
            "tests[{}] - wrong literal",
            i
        );
    }
}
