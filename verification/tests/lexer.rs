use moca::lexer::Lexer;
use moca::token::{Token, TokenKind};

fn tokens(src: &str) -> Vec<(TokenKind, String)> {
    let mut lexer = Lexer::new(src);
    let mut out = Vec::new();
    while let Some(token) = lexer.next_token() {
        out.push((token.token_kind, token.value));
    }
    out
}

fn kinds(src: &str) -> Vec<TokenKind> {
    tokens(src).into_iter().map(|t| t.0).collect()
}

#[test]
fn lexer_next_token() {
    let src = r#"
        int abc = 1234; //this is comment
        boolean b = true;
        String str = "sss;";
        "#;
    let mut la = Lexer::new(src);
    while let Some(token) = la.next_token() {
        println!("{}", token.to_string());
    }
}

#[test]
fn lexer_tokens_of_a_declaration() {
    let src = r#"
        int abc = 1234; //this is comment
        boolean b = true;
        String str = "sss;";
        "#;
    let expected = vec![
        (TokenKind::Int, "int"),
        (TokenKind::Ident, "abc"),
        (TokenKind::Assign, "="),
        (TokenKind::IntLiteral, "1234"),
        (TokenKind::SemiColon, ";"),
        (TokenKind::Boolean, "boolean"),
        (TokenKind::Ident, "b"),
        (TokenKind::Assign, "="),
        (TokenKind::BoolLiteral, "true"),
        (TokenKind::SemiColon, ";"),
        (TokenKind::Ident, "String"),
        (TokenKind::Ident, "str"),
        (TokenKind::Assign, "="),
        (TokenKind::StringLiteral, "sss;"),
        (TokenKind::SemiColon, ";"),
    ];
    let found = tokens(src);
    assert_eq!(found.len(), expected.len());
    for (f, e) in found.iter().zip(expected.iter()) {
        assert_eq!(f.0, e.0);
        assert_eq!(f.1, e.1);
    }
}

#[test]
fn lexer_operators_and_separators() {
    assert_eq!(
        kinds("+ - * / ! = == != < > && || ( ) { } [ ] : ; ,"),
        vec![
            TokenKind::Plus,
            TokenKind::Minus,
            TokenKind::Asterisk,
            TokenKind::Slash,
            TokenKind::Bang,
            TokenKind::Assign,
            TokenKind::Equal,
            TokenKind::NotEqual,
            TokenKind::LessThan,
            TokenKind::GreaterThan,
            TokenKind::And,
            TokenKind::Or,
            TokenKind::Lparen,
            TokenKind::Rparen,
            TokenKind::Lcurly,
            TokenKind::Rcurly,
            TokenKind::Lsquare,
            TokenKind::Rsquare,
            TokenKind::Colon,
            TokenKind::SemiColon,
            TokenKind::Comma,
        ]
    );
    let found = tokens("a==b!=c");
    assert_eq!(found[1], (TokenKind::Equal, "==".to_string()));
    assert_eq!(found[3], (TokenKind::NotEqual, "!=".to_string()));
    assert_eq!(tokens("&"), vec![(TokenKind::Other, "&".to_string())]);
    assert_eq!(tokens("|x")[0], (TokenKind::Other, "|".to_string()));
}

#[test]
fn lexer_keywords() {
    assert_eq!(
        kinds("void return if else let fn while int double boolean true false other"),
        vec![
            TokenKind::Void,
            TokenKind::Return,
            TokenKind::If,
            TokenKind::Else,
            TokenKind::Let,
            TokenKind::Fn,
            TokenKind::While,
            TokenKind::Int,
            TokenKind::Double,
            TokenKind::Boolean,
            TokenKind::BoolLiteral,
            TokenKind::BoolLiteral,
            TokenKind::Ident,
        ]
    );
    assert_eq!(kinds("for new class"), vec![TokenKind::Ident; 3]);
}

#[test]
fn lexer_numbers() {
    assert_eq!(
        tokens("12 3.5 7. 1.2.3"),
        vec![
            (TokenKind::IntLiteral, "12".to_string()),
            (TokenKind::DoubleLiteral, "3.5".to_string()),
            (TokenKind::DoubleLiteral, "7.".to_string()),
            (TokenKind::DoubleLiteral, "1.2".to_string()),
            (TokenKind::Other, ".".to_string()),
            (TokenKind::IntLiteral, "3".to_string()),
        ]
    );
}

#[test]
fn lexer_strings_and_comments() {
    assert_eq!(
        tokens("\"open"),
        vec![(TokenKind::StringLiteral, "open".to_string())]
    );
    assert_eq!(
        tokens("\"\" x"),
        vec![
            (TokenKind::StringLiteral, "".to_string()),
            (TokenKind::Ident, "x".to_string())
        ]
    );
    assert_eq!(tokens("// only a comment"), vec![]);
    assert_eq!(tokens("   \n\t "), vec![]);
    assert_eq!(tokens(""), vec![]);
    // only one comment is passed over before a token
    assert_eq!(
        kinds("// one\n// two\nx"),
        vec![
            TokenKind::Slash,
            TokenKind::Slash,
            TokenKind::Ident,
            TokenKind::Ident
        ]
    );
    assert_eq!(
        tokens("a / b"),
        vec![
            (TokenKind::Ident, "a".to_string()),
            (TokenKind::Slash, "/".to_string()),
            (TokenKind::Ident, "b".to_string())
        ]
    );
}

#[test]
fn lexer_unknown_characters_become_other() {
    assert_eq!(
        tokens("a # b"),
        vec![
            (TokenKind::Ident, "a".to_string()),
            (TokenKind::Other, "#".to_string()),
            (TokenKind::Ident, "b".to_string())
        ]
    );
    assert_eq!(
        tokens("x.y"),
        vec![(TokenKind::Ident, "x.y".to_string())]
    );
}

#[test]
fn token_description() {
    let token = Token::new(TokenKind::Ident, "abc".to_string());
    assert_eq!(token.to_string(), "Token: Ident, \"abc\"");
    assert_eq!(token.to_string(), format!("Token: {:?}, {:?}", token.token_kind, token.value));
    let quoted = Token::new(TokenKind::StringLiteral, "a\"b\n".to_string());
    assert_eq!(quoted.to_string(), "Token: StringLiteral, \"a\\\"b\\n\"");
    assert!(token.is_same_kind(TokenKind::Ident));
    assert!(!token.is_same_kind(TokenKind::Other));
    let copy = token.clone();
    assert_eq!(copy.token_kind, TokenKind::Ident);
    assert_eq!(copy.value, "abc");
}

#[test]
fn kind_names_are_the_variant_names() {
    for kind in [
        TokenKind::Plus,
        TokenKind::Minus,
        TokenKind::Asterisk,
        TokenKind::Slash,
        TokenKind::Bang,
        TokenKind::Assign,
        TokenKind::Equal,
        TokenKind::NotEqual,
        TokenKind::LessThan,
        TokenKind::GreaterThan,
        TokenKind::And,
        TokenKind::Or,
        TokenKind::Dot,
        TokenKind::Lparen,
        TokenKind::Rparen,
        TokenKind::Lcurly,
        TokenKind::Rcurly,
        TokenKind::Lsquare,
        TokenKind::Rsquare,
        TokenKind::Colon,
        TokenKind::SemiColon,
        TokenKind::Comma,
        TokenKind::Void,
        TokenKind::Return,
        TokenKind::If,
        TokenKind::Else,
        TokenKind::While,
        TokenKind::For,
        TokenKind::Let,
        TokenKind::Fn,
        TokenKind::New,
        TokenKind::Class,
        TokenKind::Int,
        TokenKind::Double,
        TokenKind::Boolean,
        TokenKind::IntLiteral,
        TokenKind::DoubleLiteral,
        TokenKind::StringLiteral,
        TokenKind::BoolLiteral,
        TokenKind::Ident,
        TokenKind::Other,
    ] {
        assert_eq!(kind.name(), format!("{:?}", kind));
    }
}
