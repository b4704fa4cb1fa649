use moca::ast::expression::Expression;
use moca::ast::statement::Statement;
use moca::lexer::Lexer;
use moca::parser::Parser;
use moca::token::Priority;

fn statements(src: &str) -> Vec<Statement> {
    let mut parser = Parser::new(Lexer::new(src));
    parser.parse_program().statements
}

fn rendered(src: &str) -> Vec<String> {
    statements(src).iter().map(|s| s.to_string()).collect()
}

#[test]
fn parser_next_token() {
    let _src = r#"
        let add = fn (a,b) {
            return a + b;
        }
        "#;
    let _src = r#"
        let add = fn () {
            return a + b;
        }
        "#;
    let src = r#"
        add(a, b);
        "#;
    let mut pa = Parser::new(Lexer::new(src));
    pa.parse_program();
}

#[test]
fn product_binds_tighter_than_sum() {
    assert_eq!(rendered("a + b * c"), vec!["(a + (b * c))"]);
    assert_eq!(rendered("a * b + c"), vec!["((a * b) + c)"]);
}

#[test]
fn equal_priority_groups_to_the_left() {
    assert_eq!(rendered("a * b * c"), vec!["((a * b) * c)"]);
    assert_eq!(rendered("a - b + c"), vec!["((a - b) + c)"]);
    assert_eq!(rendered("a / b * c / d"), vec!["(((a / b) * c) / d)"]);
}

#[test]
fn parentheses_override_precedence() {
    assert_eq!(rendered("(a + b) * c"), vec!["((a + b) * c)"]);
    assert_eq!(rendered("a * (b + c)"), vec!["(a * (b + c))"]);
}

#[test]
fn prefix_binds_tighter_than_infix() {
    assert_eq!(rendered("-a * b"), vec!["((-a) * b)"]);
    assert_eq!(rendered("!a == b"), vec!["((!a) == b)"]);
    assert_eq!(rendered("- - a"), vec!["(-(-a))"]);
}

#[test]
fn let_statement_round_trip() {
    let parsed = statements("let x = 5;");
    assert_eq!(parsed.len(), 1);
    match &parsed[0] {
        Statement::LetStatement { name, value } => {
            assert_eq!(name.to_string(), "x");
            assert_eq!(value.to_string(), "5");
            assert!(matches!(value, Expression::IntegerLiteral(5)));
        }
        other => panic!("not a let statement: {:?}", other),
    }
    assert_eq!(parsed[0].to_string(), "let x = 5;");
}

#[test]
fn if_else_with_blocks() {
    let parsed = statements("if (x) { return x; } else { return 0; }");
    assert_eq!(parsed.len(), 1);
    match &parsed[0] {
        Statement::ExpressionStatement { value } => match value {
            Expression::IfExpression { condition, consequence, alternative } => {
                assert_eq!(condition.to_string(), "x");
                match &**consequence {
                    Statement::BlockStatement { statements } => {
                        assert_eq!(statements.len(), 1);
                        assert!(matches!(statements[0], Statement::ReturnStatement { .. }));
                    }
                    other => panic!("not a block: {:?}", other),
                }
                match alternative {
                    Some(block) => match &**block {
                        Statement::BlockStatement { statements } => {
                            assert_eq!(statements.len(), 1);
                            assert!(matches!(statements[0], Statement::ReturnStatement { .. }));
                        }
                        other => panic!("not a block: {:?}", other),
                    },
                    None => panic!("no alternative"),
                }
            }
            other => panic!("not an if expression: {:?}", other),
        },
        other => panic!("not an expression statement: {:?}", other),
    }
    assert_eq!(
        parsed[0].to_string(),
        "if (x) {\nreturn x;\n} else {\nreturn 0;\n}"
    );
}

#[test]
fn function_literal_with_two_parameters() {
    let parsed = statements("fn (a, b) { return a + b; }");
    assert_eq!(parsed.len(), 1);
    match &parsed[0] {
        Statement::ExpressionStatement { value } => match value {
            Expression::FunctionLiteral { parameters, body } => {
                assert_eq!(parameters.len(), 2);
                assert_eq!(parameters[0].to_string(), "a");
                assert_eq!(parameters[1].to_string(), "b");
                assert_eq!(body.to_string(), "{\nreturn (a + b);\n}");
            }
            other => panic!("not a function literal: {:?}", other),
        },
        other => panic!("not an expression statement: {:?}", other),
    }
    assert_eq!(parsed[0].to_string(), "fn (a, b) {\nreturn (a + b);\n}");
}

#[test]
fn call_with_two_arguments() {
    let parsed = statements("add(1, 2 * 3)");
    assert_eq!(parsed.len(), 1);
    match &parsed[0] {
        Statement::ExpressionStatement { value } => match value {
            Expression::CallExpression { function, arguments } => {
                assert_eq!(function.to_string(), "add");
                assert_eq!(arguments.len(), 2);
                assert!(matches!(*arguments[0], Expression::IntegerLiteral(1)));
                assert!(matches!(*arguments[1], Expression::InfixExpression { .. }));
            }
            other => panic!("not a call: {:?}", other),
        },
        other => panic!("not an expression statement: {:?}", other),
    }
    assert_eq!(parsed[0].to_string(), "add(1, (2 * 3))");
}

#[test]
fn malformed_statement_does_not_stop_the_parse() {
    let mut parser = Parser::new(Lexer::new("let = 5; let y = 10;"));
    let outcomes = parser.parse_outcomes();
    assert_eq!(outcomes.len(), 4);
    assert_eq!(
        outcomes[0].as_ref().unwrap_err().message,
        "expected next token to be Ident, got Assign instead"
    );
    assert_eq!(
        outcomes[1].as_ref().unwrap_err().message,
        "no prefix but found Assign"
    );
    assert_eq!(outcomes[2].as_ref().unwrap().to_string(), "5");
    assert_eq!(outcomes[3].as_ref().unwrap().to_string(), "let y = 10;");
    assert_eq!(rendered("let = 5; let y = 10;"), vec!["5", "let y = 10;"]);
}

#[test]
fn rendering_is_stable_under_one_round_trip() {
    for src in [
        "a + b * c - d / e",
        "-a * !b",
        "add(1, 2 * 3)(x)",
        "a == b != c < d > e",
        "if (a < b) { return a; } else { return b; }",
        "fn (a, b) { let c = a + b; return c * 2; }",
        "let f = fn () { return 1; };",
    ] {
        let once = rendered(src);
        assert_eq!(once.len(), 1);
        let twice = rendered(&once[0]);
        assert_eq!(once, twice);
    }
}

#[test]
fn comparison_operators_group_below_arithmetic() {
    assert_eq!(rendered("a + b == c * d"), vec!["((a + b) == (c * d))"]);
    assert_eq!(rendered("a < b == c > d"), vec!["((a < b) == (c > d))"]);
    assert_eq!(rendered("a == b != c"), vec!["((a == b) != c)"]);
    assert_eq!(rendered("1 + 2 < 3 * 4"), vec!["((1 + 2) < (3 * 4))"]);
}

#[test]
fn calls_bind_tighter_than_operators() {
    assert_eq!(rendered("a + f(b) * c"), vec!["(a + (f(b) * c))"]);
    assert_eq!(rendered("-f(x)"), vec!["(-f(x))"]);
    assert_eq!(rendered("f(x)(y)"), vec!["f(x)(y)"]);
    assert_eq!(rendered("f()"), vec!["f()"]);
    assert_eq!(rendered("(a + b)(c)"), vec!["(a + b)(c)"]);
    assert_eq!(rendered("fn (x) { return x; }(1)"), vec!["fn (x) {\nreturn x;\n}(1)"]);
}

#[test]
fn statements_and_terminators() {
    assert_eq!(rendered("let x = 5"), vec!["let x = 5;"]);
    assert_eq!(rendered("return 1 + 2"), vec!["return (1 + 2);"]);
    assert_eq!(rendered("return x;"), vec!["return x;"]);
    assert_eq!(rendered("a; b; c"), vec!["a", "b", "c"]);
    assert_eq!(rendered("a b"), vec!["a", "b"]);
    assert_eq!(rendered("true; false"), vec!["true", "false"]);
    assert_eq!(
        rendered("let a = 10; let b = a * 2; return b;"),
        vec!["let a = 10;", "let b = (a * 2);", "return b;"]
    );
}

#[test]
fn blocks_and_conditionals() {
    assert_eq!(rendered("if (x) { }"), vec!["if (x) {\n\n}"]);
    assert_eq!(rendered("if (a < b) { a }"), vec!["if ((a < b)) {\na\n}"]);
    assert_eq!(
        rendered("if (true) { let a = 10; a + 10; } else { let b = 100; }"),
        vec!["if (true) {\nlet a = 10;(a + 10)\n} else {\nlet b = 100;\n}"]
    );
    assert_eq!(
        rendered("if (a) { if (b) { c } else { d } }"),
        vec!["if (a) {\nif (b) {\nc\n} else {\nd\n}\n}"]
    );
    assert_eq!(rendered("fn () { }"), vec!["fn () {\n\n}"]);
    assert_eq!(rendered("fn (a) { a }"), vec!["fn (a) {\na\n}"]);
    assert_eq!(
        rendered("let add = fn (a,b) { return a + b; }"),
        vec!["let add = fn (a, b) {\nreturn (a + b);\n};"]
    );
}

#[test]
fn adjacent_expression_statements_do_not_round_trip() {
    let once = rendered("fn () { a; (b + c) }");
    assert_eq!(once, vec!["fn () {\na(b + c)\n}"]);
    let twice = rendered(&once[0]);
    assert_eq!(twice, vec!["fn () {\na((b + c))\n}"]);
}

#[test]
fn the_parser_starts_before_the_first_token() {
    let mut parser = Parser::new(Lexer::new("x"));
    assert_eq!(
        parser.parse_statement().unwrap_err().message,
        "no prefix but found Other"
    );
    assert!(parser.next_token());
    assert_eq!(parser.parse_statement().unwrap().to_string(), "x");
    assert!(!parser.next_token());
    assert!(!parser.next_token());
    let mut empty = Parser::new(Lexer::new(""));
    assert!(!empty.next_token());
}

#[test]
fn parse_expression_stops_at_weaker_operators() {
    let mut parser = Parser::new(Lexer::new("a * b + c"));
    assert!(parser.next_token());
    let product = parser.parse_expression(Priority::Sum).unwrap();
    assert_eq!(product.to_string(), "(a * b)");
    // the cursor is on `b`, and `+` is still to come
    assert!(parser.next_token());
    assert_eq!(
        parser.parse_expression(Priority::Lowest).unwrap_err().message,
        "no prefix but found Plus"
    );

    let mut parser = Parser::new(Lexer::new("a + b * c"));
    assert!(parser.next_token());
    let whole = parser.parse_expression(Priority::Sum).unwrap();
    assert_eq!(whole.to_string(), "a");

    let mut parser = Parser::new(Lexer::new("a + b * c"));
    assert!(parser.next_token());
    let whole = parser.parse_expression(Priority::Lowest).unwrap();
    assert_eq!(whole.to_string(), "(a + (b * c))");
    assert!(!parser.next_token());

    let mut parser = Parser::new(Lexer::new("f(x) + 1"));
    assert!(parser.next_token());
    let callee = parser.parse_expression(Priority::Call).unwrap();
    assert_eq!(callee.to_string(), "f");
}

#[test]
fn parse_statement_leaves_the_cursor_on_its_last_token() {
    let mut parser = Parser::new(Lexer::new("let a = 1; return a"));
    assert!(parser.next_token());
    assert_eq!(parser.parse_statement().unwrap().to_string(), "let a = 1;");
    assert!(parser.next_token());
    assert_eq!(parser.parse_statement().unwrap().to_string(), "return a;");
    assert!(!parser.next_token());
}
