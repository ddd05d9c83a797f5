//! Tests of the parser over source text, one construct each.

use sofia::ast::{AccessModifier, Expression, Statement};
use sofia::lexer::Lexer;
use sofia::parser::Parser;

#[test]
fn parser_test_let_statements() {
    let input = "
        let x = 5;
        let y = 10;
        let foobar = 838383;
    ";

    let lexer = Lexer::new(input.to_string());
    let mut parser = Parser::new(lexer);
    let program = parser.parse_program().unwrap();

    assert_eq!(program.statements.len(), 3);

    let tests = vec!["x", "y", "foobar"];

    for (i, tt) in tests.iter().enumerate() {
        let stmt = &program.statements[i];
        if let Statement::Let(let_stmt) = stmt {
            assert_eq!(let_stmt.name.value, *tt);
            assert_eq!(let_stmt.name.token.literal, *tt);
        } else {
            panic!("stmt not a let statement");
        }
    }
}

#[test]
fn parser_test_return_statements() {
    let input = "
        return 5;
        return 10;
        return 993322;
    ";

    let lexer = Lexer::new(input.to_string());
    let mut parser = Parser::new(lexer);
    let program = parser.parse_program().unwrap();

    assert_eq!(program.statements.len(), 3);

    for stmt in program.statements {
        if let Statement::Return(_) = stmt {
            // ok
        } else {
            panic!("stmt not a return statement");
        }
    }
}

#[test]
fn test_identifier_expression() {
    let input = "foobar;";
    let lexer = Lexer::new(input.to_string());
    let mut parser = Parser::new(lexer);
    let program = parser.parse_program().unwrap();

    assert_eq!(program.statements.len(), 1);

    if let Statement::Expression(exp_stmt) = &program.statements[0] {
        if let Expression::Identifier(ident) = &exp_stmt.expression {
            assert_eq!(ident.value, "foobar");
            assert_eq!(ident.token.literal, "foobar");
        } else {
            panic!("not an identifier");
        }
    } else {
        panic!("not an expression statement");
    }
}

#[test]
fn parser_test_integer_literal_expression() {
    let input = "5;";
    let lexer = Lexer::new(input.to_string());
    let mut parser = Parser::new(lexer);
    let program = parser.parse_program().unwrap();

    assert_eq!(program.statements.len(), 1);

    if let Statement::Expression(exp_stmt) = &program.statements[0] {
        if let Expression::IntegerLiteral(literal) = &exp_stmt.expression {
            assert_eq!(literal.value, 5);
            assert_eq!(literal.token.literal, "5");
        } else {
            panic!("not an integer literal");
        }
    } else {
        panic!("not an expression statement");
    }
}

#[test]
fn parser_test_boolean_literal_expression() {
    let input = "true; false;";
    let lexer = Lexer::new(input.to_string());
    let mut parser = Parser::new(lexer);
    let program = parser.parse_program().unwrap();

    assert_eq!(program.statements.len(), 2);

    if let Statement::Expression(exp_stmt) = &program.statements[0] {
        if let Expression::Boolean(boolean) = &exp_stmt.expression {
            assert_eq!(boolean.value, true);
            assert_eq!(boolean.token.literal, "true");
        } else {
            panic!("not a boolean");
        }
    } else {
        panic!("not an expression statement");
    }

    if let Statement::Expression(exp_stmt) = &program.statements[1] {
        if let Expression::Boolean(boolean) = &exp_stmt.expression {
            assert_eq!(boolean.value, false);
            assert_eq!(boolean.token.literal, "false");
        } else {
            panic!("not a boolean");
        }
    } else {
        panic!("not an expression statement");
    }
}

#[test]
fn test_string_literal_expression() {
    let input = "\"hello world\";";

    let lexer = Lexer::new(input.to_string());
    let mut parser = Parser::new(lexer);
    let program = parser.parse_program().unwrap();

    let stmt = &program.statements[0];
    if let Statement::Expression(exp) = stmt {
        if let Expression::StringLiteral(string_lit) = &exp.expression {
            assert_eq!(string_lit.value, "hello world");
        } else {
            panic!("expression not a string literal");
        }
    } else {
        panic!("statement not an expression statement");
    }
}

#[test]
fn test_parsing_prefix_expressions() {
    let prefix_tests = vec![("!5;", "!", 5), ("-15;", "-", 15)];

    for tt in prefix_tests {
        let lexer = Lexer::new(tt.0.to_string());
        let mut parser = Parser::new(lexer);
        let program = parser.parse_program().unwrap();

        assert_eq!(program.statements.len(), 1);

        if let Statement::Expression(exp_stmt) = &program.statements[0] {
            if let Expression::Prefix(prefix_exp) = &exp_stmt.expression {
                assert_eq!(prefix_exp.operator, tt.1);
                if let Expression::IntegerLiteral(int_lit) = &*prefix_exp.right {
                    assert_eq!(int_lit.value, tt.2);
                } else {
                    panic!("not an integer literal");
                }
            } else {
                panic!("not a prefix expression");
            }
        } else {
            panic!("not an expression statement");
        }
    }
}

#[test]
fn test_parsing_infix_expressions() {
    let infix_tests = vec![
        ("5 + 5;", 5, "+", 5),
        ("5 - 5;", 5, "-", 5),
        ("5 * 5;", 5, "*", 5),
        ("5 / 5;", 5, "/", 5),
        ("5 > 5;", 5, ">", 5),
        ("5 < 5;", 5, "<", 5),
        ("5 == 5;", 5, "==", 5),
        ("5 != 5;", 5, "!=", 5),
    ];

    for tt in infix_tests {
        let lexer = Lexer::new(tt.0.to_string());
        let mut parser = Parser::new(lexer);
        let program = parser.parse_program().unwrap();

        assert_eq!(program.statements.len(), 1);

        if let Statement::Expression(exp_stmt) = &program.statements[0] {
            if let Expression::Infix(infix_exp) = &exp_stmt.expression {
                if let Expression::IntegerLiteral(left) = &*infix_exp.left {
                    assert_eq!(left.value, tt.1);
                } else {
                    panic!("left not integer literal");
                }
                assert_eq!(infix_exp.operator, tt.2);
                if let Expression::IntegerLiteral(right) = &*infix_exp.right {
                    assert_eq!(right.value, tt.3);
                } else {
                    panic!("right not integer literal");
                }
            } else {
                panic!("not an infix expression");
            }
        } else {
            panic!("not an expression statement");
        }
    }
}

#[test]
fn test_operator_precedence_parsing() {
    let tests = vec![
        ("-a * b", "((-a) * b)"),
        ("!-a", "(!(-a))"),
        ("a + b + c", "((a + b) + c)"),
        ("a + b - c", "((a + b) - c)"),
        ("a * b * c", "((a * b) * c)"),
        ("a * b / c", "((a * b) / c)"),
        ("a + b / c", "(a + (b / c))"),
        ("a + b * c + d / e - f", "(((a + (b * c)) + (d / e)) - f)"),
        ("3 + 4; -5 * 5", "(3 + 4)((-5) * 5)"),
        ("5 > 4 == 3 < 4", "((5 > 4) == (3 < 4))"),
        ("5 < 4 != 3 > 4", "((5 < 4) != (3 > 4))"),
        (
            "3 + 4 * 5 == 3 * 1 + 4 * 5",
            "((3 + (4 * 5)) == ((3 * 1) + (4 * 5)))",
        ),
        ("true", "true"),
        ("false", "false"),
        ("3 > 5 == false", "((3 > 5) == false)"),
        ("3 < 5 == true", "((3 < 5) == true)"),
        ("1 + (2 + 3) + 4", "((1 + (2 + 3)) + 4)"),
        ("(5 + 5) * 2", "((5 + 5) * 2)"),
        ("2 / (5 + 5)", "(2 / (5 + 5))"),
        ("-(5 + 5)", "(-(5 + 5))"),
        ("!(true == true)", "(!(true == true))"),
        ("a + add(b * c) + d", "((a + add((b * c))) + d)"),
        (
            "add(a, b, 1, 2 * 3, 4 + 5, add(6, 7 * 8))",
            "add(a, b, 1, (2 * 3), (4 + 5), add(6, (7 * 8)))",
        ),
        (
            "add(a + b + c * d / f + g)",
            "add((((a + b) + ((c * d) / f)) + g))",
        ),
    ];

    for tt in tests {
        let lexer = Lexer::new(tt.0.to_string());
        let mut parser = Parser::new(lexer);
        let program = parser.parse_program().unwrap();
        assert_eq!(program.string(), tt.1);
    }
}

#[test]
fn test_if_expression() {
    let input = "if (x < y) { x }";
    let lexer = Lexer::new(input.to_string());
    let mut parser = Parser::new(lexer);
    let program = parser.parse_program().unwrap();

    assert_eq!(program.statements.len(), 1);

    if let Statement::Expression(exp_stmt) = &program.statements[0] {
        if let Expression::If(if_exp) = &exp_stmt.expression {
            if let Expression::Infix(infix) = &*if_exp.condition {
                assert_eq!(infix.left.string(), "x");
                assert_eq!(infix.operator, "<");
                assert_eq!(infix.right.string(), "y");
            } else {
                panic!("condition not infix expression");
            }
            assert_eq!(if_exp.consequence.statements.len(), 1);
            if let Statement::Expression(cons_stmt) = &if_exp.consequence.statements[0] {
                assert_eq!(cons_stmt.expression.string(), "x");
            } else {
                panic!("consequence not expression statement");
            }
            assert!(if_exp.alternative.is_none());
        } else {
            panic!("not an if expression");
        }
    } else {
        panic!("not an expression statement");
    }
}

#[test]
fn test_if_else_expression() {
    let input = "if (x < y) { x } else { y }";
    let lexer = Lexer::new(input.to_string());
    let mut parser = Parser::new(lexer);
    let program = parser.parse_program().unwrap();

    assert_eq!(program.statements.len(), 1);

    if let Statement::Expression(exp_stmt) = &program.statements[0] {
        if let Expression::If(if_exp) = &exp_stmt.expression {
            if let Expression::Infix(infix) = &*if_exp.condition {
                assert_eq!(infix.left.string(), "x");
                assert_eq!(infix.operator, "<");
                assert_eq!(infix.right.string(), "y");
            } else {
                panic!("condition not infix expression");
            }
            assert_eq!(if_exp.consequence.statements.len(), 1);
            if let Statement::Expression(cons_stmt) = &if_exp.consequence.statements[0] {
                assert_eq!(cons_stmt.expression.string(), "x");
            } else {
                panic!("consequence not expression statement");
            }
            assert!(if_exp.alternative.is_some());
            if let Some(alt) = &if_exp.alternative {
                assert_eq!(alt.statements.len(), 1);
                if let Statement::Expression(alt_stmt) = &alt.statements[0] {
                    assert_eq!(alt_stmt.expression.string(), "y");
                } else {
                    panic!("alternative not expression statement");
                }
            }
        } else {
            panic!("not an if expression");
        }
    } else {
        panic!("not an expression statement");
    }
}

#[test]
fn test_function_literal_parsing() {
    let input = "fn(x, y) { x + y; }";
    let lexer = Lexer::new(input.to_string());
    let mut parser = Parser::new(lexer);
    let program = parser.parse_program().unwrap();

    assert_eq!(program.statements.len(), 1);

    if let Statement::Expression(exp_stmt) = &program.statements[0] {
        if let Expression::FunctionLiteral(func) = &exp_stmt.expression {
            assert_eq!(func.parameters.len(), 2);
            assert_eq!(func.parameters[0].value, "x");
            assert_eq!(func.parameters[1].value, "y");
            assert_eq!(func.body.statements.len(), 1);
            if let Statement::Expression(body_stmt) = &func.body.statements[0] {
                if let Expression::Infix(infix) = &body_stmt.expression {
                    assert_eq!(infix.left.string(), "x");
                    assert_eq!(infix.operator, "+");
                    assert_eq!(infix.right.string(), "y");
                } else {
                    panic!("body not infix expression");
                }
            } else {
                panic!("body not expression statement");
            }
        } else {
            panic!("not a function literal");
        }
    } else {
        panic!("not an expression statement");
    }
}

#[test]
fn test_call_expression_parsing() {
    let input = "add(1, 2 * 3, 4 + 5);";
    let lexer = Lexer::new(input.to_string());
    let mut parser = Parser::new(lexer);
    let program = parser.parse_program().unwrap();

    assert_eq!(program.statements.len(), 1);

    if let Statement::Expression(exp_stmt) = &program.statements[0] {
        if let Expression::Call(call) = &exp_stmt.expression {
            if let Expression::Identifier(ident) = &*call.function {
                assert_eq!(ident.value, "add");
            } else {
                panic!("function not identifier");
            }
            assert_eq!(call.arguments.len(), 3);
            assert_eq!(call.arguments[0].string(), "1");
            assert_eq!(call.arguments[1].string(), "(2 * 3)");
            assert_eq!(call.arguments[2].string(), "(4 + 5)");
        } else {
            panic!("not a call expression");
        }
    } else {
        panic!("not an expression statement");
    }
}

#[test]
fn parser_test_this_expression() {
    let input = "this;";
    let lexer = Lexer::new(input.to_string());
    let mut parser = Parser::new(lexer);
    let program = parser.parse_program().unwrap();
    assert_eq!(program.statements.len(), 1);
    let stmt = &program.statements[0];
    if let Statement::Expression(exp_stmt) = stmt {
        if let Expression::This(_) = &exp_stmt.expression {
            // ok
        } else {
            panic!("not a this expression");
        }
    } else {
        panic!("not an expression statement");
    }
}

#[test]
fn test_super_expression() {
    let input = "super;";
    let lexer = Lexer::new(input.to_string());
    let mut parser = Parser::new(lexer);
    let program = parser.parse_program().unwrap();
    assert_eq!(program.statements.len(), 1);
    let stmt = &program.statements[0];
    if let Statement::Expression(exp_stmt) = stmt {
        if let Expression::Super(_) = &exp_stmt.expression {
            // ok
        } else {
            panic!("not a super expression");
        }
    } else {
        panic!("not an expression statement");
    }
}

#[test]
fn parser_test_new_expression() {
    let input = "new MyClass(1, 2);";
    let lexer = Lexer::new(input.to_string());
    let mut parser = Parser::new(lexer);
    let program = parser.parse_program().unwrap();
    assert_eq!(program.statements.len(), 1);
    let stmt = &program.statements[0];
    if let Statement::Expression(exp_stmt) = stmt {
        if let Expression::New(new_exp) = &exp_stmt.expression {
            assert_eq!(new_exp.class_name.value, "MyClass");
            assert_eq!(new_exp.arguments.len(), 2);
            assert_eq!(new_exp.arguments[0].string(), "1");
            assert_eq!(new_exp.arguments[1].string(), "2");
        } else {
            panic!("not a new expression");
        }
    } else {
        panic!("not an expression statement");
    }
}

#[test]
fn test_property_access_expression() {
    let input = "myObject.myProperty;";
    let lexer = Lexer::new(input.to_string());
    let mut parser = Parser::new(lexer);
    let program = parser.parse_program().unwrap();
    assert_eq!(program.statements.len(), 1);
    let stmt = &program.statements[0];
    if let Statement::Expression(exp_stmt) = stmt {
        if let Expression::PropertyAccess(prop_access) = &exp_stmt.expression {
            assert_eq!(prop_access.left.string(), "myObject");
            assert_eq!(prop_access.property.value, "myProperty");
        } else {
            panic!("not a property access expression");
        }
    } else {
        panic!("not an expression statement");
    }
}

#[test]
fn test_method_call_expression() {
    let input = "myObject.myMethod(1);";
    let lexer = Lexer::new(input.to_string());
    let mut parser = Parser::new(lexer);
    let program = parser.parse_program().unwrap();
    assert_eq!(program.statements.len(), 1);
    let stmt = &program.statements[0];
    if let Statement::Expression(exp_stmt) = stmt {
        if let Expression::Call(call_exp) = &exp_stmt.expression {
            if let Expression::PropertyAccess(prop_access) = &*call_exp.function {
                assert_eq!(prop_access.left.string(), "myObject");
                assert_eq!(prop_access.property.value, "myMethod");
            } else {
                panic!("not a property access expression");
            }
            assert_eq!(call_exp.arguments.len(), 1);
            assert_eq!(call_exp.arguments[0].string(), "1");
        } else {
            panic!("not a call expression");
        }
    } else {
        panic!("not an expression statement");
    }
}

#[test]
fn parser_test_class_declaration() {
    let input = "class MyClass {}";
    let lexer = Lexer::new(input.to_string());
    let mut parser = Parser::new(lexer);
    let program = parser.parse_program().unwrap();

    assert_eq!(program.statements.len(), 1);

    if let Statement::ClassDeclaration(class_decl) = &program.statements[0] {
        assert_eq!(class_decl.name.value, "MyClass");
        assert!(class_decl.super_class.is_none());
        assert!(class_decl.interfaces.is_empty());
        assert!(class_decl.properties.is_empty());
        assert!(class_decl.methods.is_empty());
    } else {
        panic!("statement not a ClassDeclaration");
    }
}

#[test]
fn test_class_with_members_declaration() {
    let input = r#"
    class MyClass {
        public static let a = 1;
        private let b;
        
        public fn methodA(x, y) {
            return x + y;
        }

        private static fn methodB() {
            // do nothing
        }
    }
    "#;

    let lexer = Lexer::new(input.to_string());
    let mut parser = Parser::new(lexer);
    let program = parser.parse_program().unwrap();

    assert_eq!(program.statements.len(), 1);

    let stmt = &program.statements[0];
    if let Statement::ClassDeclaration(class_decl) = stmt {
        assert_eq!(class_decl.name.value, "MyClass");

        // Проверка свойств
        assert_eq!(class_decl.properties.len(), 2);
        let prop1 = &class_decl.properties[0];
        assert_eq!(prop1.name.value, "a");
        assert_eq!(prop1.access_modifier, AccessModifier::Public);
        assert!(prop1.is_static);
        assert!(prop1.value.is_some());

        let prop2 = &class_decl.properties[1];
        assert_eq!(prop2.name.value, "b");
        assert_eq!(prop2.access_modifier, AccessModifier::Private);
        assert!(!prop2.is_static);
        assert!(prop2.value.is_none());

        // Проверка методов
        assert_eq!(class_decl.methods.len(), 2);
        let method1 = &class_decl.methods[0];
        assert_eq!(method1.name.value, "methodA");
        assert_eq!(method1.access_modifier, AccessModifier::Public);
        assert!(!method1.is_static);
        assert_eq!(method1.parameters.len(), 2);

        let method2 = &class_decl.methods[1];
        assert_eq!(method2.name.value, "methodB");
        assert_eq!(method2.access_modifier, AccessModifier::Private);
        assert!(method2.is_static);
        assert_eq!(method2.parameters.len(), 0);
    } else {
        panic!("Statement is not a ClassDeclaration");
    }
}

#[test]
fn test_class_declaration_with_inheritance() {
    let input = "class B extends A {}";
    let lexer = Lexer::new(input.to_string());
    let mut parser = Parser::new(lexer);
    let program = parser.parse_program().unwrap();

    assert_eq!(program.statements.len(), 1);

    let stmt = &program.statements[0];
    if let Statement::ClassDeclaration(class_decl) = stmt {
        assert_eq!(class_decl.name.value, "B");
        assert!(class_decl.super_class.is_some());
        let super_class = class_decl.super_class.as_ref().unwrap();
        assert_eq!(super_class.value, "A");
    } else {
        panic!("Statement is not a ClassDeclaration");
    }
}

#[test]
fn parser_test_struct_declaration() {
    let input = r#"
    struct MyStruct {
        public let x;
        let y = 10;
    }
    "#;
    let lexer = Lexer::new(input.to_string());
    let mut parser = Parser::new(lexer);
    let program = parser.parse_program().unwrap();

    assert_eq!(program.statements.len(), 1);

    if let Statement::StructDeclaration(struct_decl) = &program.statements[0] {
        assert_eq!(struct_decl.name.value, "MyStruct");
        assert_eq!(struct_decl.properties.len(), 2);

        let prop1 = &struct_decl.properties[0];
        assert_eq!(prop1.name.value, "x");
        assert_eq!(prop1.access_modifier, AccessModifier::Public);
        assert!(!prop1.is_static);
        assert!(prop1.value.is_none());

        let prop2 = &struct_decl.properties[1];
        assert_eq!(prop2.name.value, "y");
        assert_eq!(prop2.access_modifier, AccessModifier::Private); // По умолчанию
        assert!(!prop2.is_static);
        assert!(prop2.value.is_some());
    } else {
        panic!("statement not a StructDeclaration");
    }
}

#[test]
fn parser_test_interface_declaration() {
    let input = r#"
    interface MyInterface {
        fn doSomething(a, b);
        fn doAnotherThing();
    }
    "#;
    let lexer = Lexer::new(input.to_string());
    let mut parser = Parser::new(lexer);
    let program = parser.parse_program().unwrap();

    assert_eq!(program.statements.len(), 1);

    if let Statement::InterfaceDeclaration(iface_decl) = &program.statements[0] {
        assert_eq!(iface_decl.name.value, "MyInterface");
        assert_eq!(iface_decl.method_signatures.len(), 2);

        let sig1 = &iface_decl.method_signatures[0];
        assert_eq!(sig1.name.value, "doSomething");
        assert_eq!(sig1.parameters.len(), 2);

        let sig2 = &iface_decl.method_signatures[1];
        assert_eq!(sig2.name.value, "doAnotherThing");
        assert_eq!(sig2.parameters.len(), 0);
    } else {
        panic!("statement not an InterfaceDeclaration");
    }
}
