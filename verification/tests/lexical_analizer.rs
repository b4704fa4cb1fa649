use moca::lexical_analizer::LexicalAnalizer;
use moca::token::TokenKind;

fn analized(src: &str) -> Vec<(TokenKind, String)> {
    let mut la = LexicalAnalizer::new(src);
    let mut out = Vec::new();
    while let Some(token) = la.next_token() {
        out.push((token.token_kind, token.value));
    }
    out
}

#[test]
fn lexical_analizer_next_token() {
    let src = "
        int abc = 1234; //this is comment
        boolean b = true;
        ";
    let mut la = LexicalAnalizer::new(src);
    while let Some(token) = la.next_token() {
        println!("{}", token.to_string());
    }
}

#[test]
fn start_vm() {
    let src = "
        class Moca {
            public static main(String[]) {
                System.out.println(\"Hello world\");
                System.out.println(1234 + 23.4 / (34*30.2));
            }
        }
        ";
    let mut la = LexicalAnalizer::new(src);
    while let Some(token) = la.next_token() {
        println!("{}", token.to_string());
    }
}

#[test]
fn analizer_tokens_of_a_declaration() {
    let src = "
        int abc = 1234; //this is comment
        boolean b = true;
        ";
    let found = analized(src);
    let expected = vec![
        (TokenKind::Int, "int"),
        (TokenKind::Ident, "abc"),
        (TokenKind::Assign, "="),
        (TokenKind::IntLiteral, "1234"),
        (TokenKind::SemiColon, ";"),
        (TokenKind::Boolean, "boolean"),
        (TokenKind::Ident, "b"),
        (TokenKind::Assign, "="),
        (TokenKind::BoolLiteral, "true"),
        (TokenKind::SemiColon, ";"),
    ];
    assert_eq!(found.len(), expected.len());
    for (f, e) in found.iter().zip(expected.iter()) {
        assert_eq!(f.0, e.0);
        assert_eq!(f.1, e.1);
    }
}

#[test]
fn analizer_tokens_of_a_class() {
    let found = analized("class Moca { System.out.println(\"Hello world\"); new for }");
    let expected = vec![
        (TokenKind::Class, "class"),
        (TokenKind::Ident, "Moca"),
        (TokenKind::Lcurly, "{"),
        (TokenKind::Ident, "System"),
        (TokenKind::Dot, "."),
        (TokenKind::Ident, "out"),
        (TokenKind::Dot, "."),
        (TokenKind::Ident, "println"),
        (TokenKind::Lparen, "("),
        (TokenKind::StringLiteral, "Hello world"),
        (TokenKind::Rparen, ")"),
        (TokenKind::SemiColon, ";"),
        (TokenKind::New, "new"),
        (TokenKind::For, "for"),
        (TokenKind::Rcurly, "}"),
    ];
    assert_eq!(found.len(), expected.len());
    for (f, e) in found.iter().zip(expected.iter()) {
        assert_eq!(f.0, e.0);
        assert_eq!(f.1, e.1);
    }
}

#[test]
fn analizer_numbers_and_operators() {
    assert_eq!(
        analized("1234 + 23.4 / (34*30.2)"),
        vec![
            (TokenKind::IntLiteral, "1234".to_string()),
            (TokenKind::Plus, "+".to_string()),
            (TokenKind::DoubleLiteral, "23.4".to_string()),
            (TokenKind::Slash, "/".to_string()),
            (TokenKind::Lparen, "(".to_string()),
            (TokenKind::IntLiteral, "34".to_string()),
            (TokenKind::Asterisk, "*".to_string()),
            (TokenKind::DoubleLiteral, "30.2".to_string()),
            (TokenKind::Rparen, ")".to_string()),
        ]
    );
    assert_eq!(
        analized("a != b == !c && d || e"),
        vec![
            (TokenKind::Ident, "a".to_string()),
            (TokenKind::NotEqual, "!=".to_string()),
            (TokenKind::Ident, "b".to_string()),
            (TokenKind::Equal, "==".to_string()),
            (TokenKind::Bang, "!".to_string()),
            (TokenKind::Ident, "c".to_string()),
            (TokenKind::And, "&&".to_string()),
            (TokenKind::Ident, "d".to_string()),
            (TokenKind::Or, "||".to_string()),
            (TokenKind::Ident, "e".to_string()),
        ]
    );
    // `<`, `>` and `,` are no symbols here
    assert_eq!(
        analized("< , >"),
        vec![
            (TokenKind::Other, "<".to_string()),
            (TokenKind::Other, ",".to_string()),
            (TokenKind::Other, ">".to_string()),
        ]
    );
    assert_eq!(analized("\"open"), vec![(TokenKind::StringLiteral, "open".to_string())]);
    assert_eq!(analized(""), vec![]);
    assert_eq!(analized("x"), vec![(TokenKind::Ident, "x".to_string())]);
    assert_eq!(analized("let fn"), vec![
        (TokenKind::Ident, "let".to_string()),
        (TokenKind::Ident, "fn".to_string()),
    ]);
}
