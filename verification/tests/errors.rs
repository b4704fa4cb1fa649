use moca::ast::program::Program;
use moca::lexer::Lexer;
use moca::parser::{ParseError, Parser};
use moca::token::{get_priority, Priority, TokenKind};

fn messages(src: &str) -> Vec<String> {
    let mut parser = Parser::new(Lexer::new(src));
    parser
        .parse_outcomes()
        .into_iter()
        .filter_map(|o| o.err())
        .map(|e| e.message)
        .collect()
}

fn first_message(src: &str) -> String {
    let found = messages(src);
    assert!(!found.is_empty(), "no error on {:?}", src);
    found[0].clone()
}

#[test]
fn unexpected_token_errors() {
    assert_eq!(
        first_message("let 5 = 1;"),
        "expected next token to be Ident, got IntLiteral instead"
    );
    assert_eq!(
        first_message("let x 1;"),
        "expected next token to be Assign, got IntLiteral instead"
    );
    assert_eq!(first_message("let"), "expected next token is Ident");
    assert_eq!(first_message("let x"), "expected next token is Assign");
    assert_eq!(
        first_message("if x { 1 }"),
        "expected next token to be Lparen, got Ident instead"
    );
    assert_eq!(
        first_message("if (x) 1"),
        "expected next token to be Lcurly, got IntLiteral instead"
    );
    assert_eq!(
        first_message("if (x { 1 }"),
        "expected next token to be Rparen, got Lcurly instead"
    );
    assert_eq!(
        first_message("fn x"),
        "expected next token to be Lparen, got Ident instead"
    );
    assert_eq!(
        first_message("fn (a b) { }"),
        "expected next token to be Rparen, got Ident instead"
    );
    assert_eq!(
        first_message("f(a b)"),
        "expected next token to be Rparen, got Ident instead"
    );
    assert_eq!(first_message("f(a"), "expected next token is Rparen");
    assert_eq!(
        first_message("if (x) { 1 } else 2"),
        "expected next token to be Lcurly, got IntLiteral instead"
    );
}

#[test]
fn no_prefix_errors() {
    assert_eq!(first_message(")"), "no prefix but found Rparen");
    assert_eq!(first_message("* 2"), "no prefix but found Asterisk");
    assert_eq!(first_message("1 + ;"), "no prefix but found SemiColon");
    assert_eq!(first_message("\"text\""), "no prefix but found StringLiteral");
    assert_eq!(first_message("1.5"), "no prefix but found DoubleLiteral");
    assert_eq!(first_message("#"), "no prefix but found Other");
}

#[test]
fn literal_conversion_errors() {
    assert_eq!(
        first_message("2147483648"),
        "could not parse 2147483648 as integer."
    );
    assert_eq!(
        first_message("let x = 99999999999;"),
        "could not parse 99999999999 as integer."
    );
    assert_eq!(first_message("\u{0663}"), "could not parse \u{0663} as integer.");
    assert_eq!(messages("2147483647"), Vec::<String>::new());
}

#[test]
fn unclosed_grouping_errors() {
    assert_eq!(first_message("(a + b"), "expected ')' but not found.");
    assert_eq!(first_message("(a + b;"), "expected ')' but not found.");
    assert_eq!(first_message("(a b)"), "expected ')' but not found.");
}

#[test]
fn end_of_input_errors() {
    assert_eq!(first_message("-"), "unexpected end of input");
    assert_eq!(first_message("!"), "unexpected end of input");
    assert_eq!(first_message("("), "unexpected end of input");
    assert_eq!(first_message("a +"), "unexpected end of input");
    assert_eq!(first_message("a -"), "unexpected end of input");
    assert_eq!(first_message("let x ="), "unexpected end of input");
    assert_eq!(first_message("return"), "unexpected end of input");
    assert_eq!(first_message("f("), "unexpected end of input");
    assert_eq!(first_message("f(a,"), "unexpected end of input");
    assert_eq!(first_message("fn ("), "unexpected end of input");
    assert_eq!(first_message("fn (a,"), "unexpected end of input");
    assert_eq!(first_message("fn () {"), "unexpected end of input");
    assert_eq!(first_message("fn () { a"), "unexpected end of input");
    assert_eq!(first_message("if ("), "unexpected end of input");
    assert_eq!(first_message("if (x) { return 1;"), "unexpected end of input");
}

#[test]
fn errors_are_reported_per_statement() {
    let mut parser = Parser::new(Lexer::new("let a = 1; ) let b = 2; * let c = 3;"));
    let outcomes = parser.parse_outcomes();
    let shape: Vec<bool> = outcomes.iter().map(|o| o.is_ok()).collect();
    assert_eq!(shape, vec![true, false, true, false, true]);
    let mut parser = Parser::new(Lexer::new("let a = 1; ) let b = 2; * let c = 3;"));
    let program: Program = parser.parse_program();
    let texts: Vec<String> = program.statements.iter().map(|s| s.to_string()).collect();
    assert_eq!(texts, vec!["let a = 1;", "let b = 2;", "let c = 3;"]);
}

#[test]
fn empty_input_gives_an_empty_program() {
    let mut parser = Parser::new(Lexer::new(""));
    assert!(parser.parse_program().statements.is_empty());
    let mut parser = Parser::new(Lexer::new("  // nothing here"));
    assert!(parser.parse_outcomes().is_empty());
    assert!(Program::new().statements.is_empty());
}

#[test]
fn error_constructors() {
    let thrown: Result<(), ParseError> = ParseError::throw("bad".to_string());
    let error = thrown.unwrap_err();
    assert_eq!(error.message, "bad");
    assert!(!error.uncheck);
    assert_eq!(error.to_string(), "ParseError: bad");
    let silent: Result<(), ParseError> = ParseError::uncheck();
    let error = silent.unwrap_err();
    assert_eq!(error.message, "");
    assert!(error.uncheck);
}

#[test]
fn priorities_of_token_kinds() {
    assert_eq!(get_priority(TokenKind::Equal), Priority::Equals);
    assert_eq!(get_priority(TokenKind::NotEqual), Priority::Equals);
    assert_eq!(get_priority(TokenKind::LessThan), Priority::LessGreater);
    assert_eq!(get_priority(TokenKind::GreaterThan), Priority::LessGreater);
    assert_eq!(get_priority(TokenKind::Plus), Priority::Sum);
    assert_eq!(get_priority(TokenKind::Minus), Priority::Sum);
    assert_eq!(get_priority(TokenKind::Asterisk), Priority::Product);
    assert_eq!(get_priority(TokenKind::Slash), Priority::Product);
    assert_eq!(get_priority(TokenKind::Lparen), Priority::Call);
    for kind in [
        TokenKind::Bang,
        TokenKind::Assign,
        TokenKind::Rparen,
        TokenKind::SemiColon,
        TokenKind::Comma,
        TokenKind::Ident,
        TokenKind::IntLiteral,
        TokenKind::Let,
        TokenKind::Other,
    ] {
        assert_eq!(get_priority(kind), Priority::Lowest);
    }
    let order = [
        Priority::Lowest,
        Priority::Equals,
        Priority::LessGreater,
        Priority::Sum,
        Priority::Product,
        Priority::Prefix,
        Priority::Call,
    ];
    for i in 0..order.len() {
        assert_eq!(order[i].level() as usize, i);
        for j in 0..order.len() {
            assert_eq!(order[i] < order[j], i < j);
        }
    }
}
