//! Tokens, their kinds, and the binding strength of operators.
use crate::text::{debug_quoted, debug_text};
use vstd::prelude::*;
use vstd::string::StringExecFns;

verus! {

/// The closed set of token kinds.
#[derive(Debug, Clone, Copy, PartialEq, Eq, Structural)]
pub enum TokenKind {
    // operators
    Plus,
    Minus,
    Asterisk,
    Slash,
    Bang,
    Assign,
    Equal,
    NotEqual,
    LessThan,
    GreaterThan,
    And,
    Or,
    Dot,
    // separators
    Lparen,
    Rparen,
    Lcurly,
    Rcurly,
    Lsquare,
    Rsquare,
    Colon,
    SemiColon,
    Comma,
    // keywords
    Void,
    Return,
    If,
    Else,
    While,
    For,
    Let,
    Fn,
    New,
    Class,
    Int,
    Double,
    Boolean,
    // literals
    IntLiteral,
    DoubleLiteral,
    StringLiteral,
    BoolLiteral,
    // others
    Ident,
    Other,
}

/// Binding strengths, weakest first.
#[derive(Debug, Clone, Copy, PartialEq, Eq, Structural, PartialOrd, Ord)]
pub enum Priority {
    Lowest,
    Equals,
    LessGreater,
    Sum,
    Product,
    Prefix,
    Call,
}

impl Priority {
    /// The position of a priority in the order `Lowest < Equals <
    /// LessGreater < Sum < Product < Prefix < Call`.
    pub open spec fn rank(self) -> nat {
        match self {
            Priority::Lowest => 0,
            Priority::Equals => 1,
            Priority::LessGreater => 2,
            Priority::Sum => 3,
            Priority::Product => 4,
            Priority::Prefix => 5,
            Priority::Call => 6,
        }
    }

    /// The rank as a machine integer.
    pub fn level(self) -> (n: u8)
        ensures
            n as nat == self.rank(),
    {
        match self {
            Priority::Lowest => 0,
            Priority::Equals => 1,
            Priority::LessGreater => 2,
            Priority::Sum => 3,
            Priority::Product => 4,
            Priority::Prefix => 5,
            Priority::Call => 6,
        }
    }
}

/// The binding strength of a token kind in infix position.
pub open spec fn priority_of(kind: TokenKind) -> Priority {
    match kind {
        TokenKind::Equal | TokenKind::NotEqual => Priority::Equals,
        TokenKind::LessThan | TokenKind::GreaterThan => Priority::LessGreater,
        TokenKind::Plus | TokenKind::Minus => Priority::Sum,
        TokenKind::Asterisk | TokenKind::Slash => Priority::Product,
        TokenKind::Lparen => Priority::Call,
        _ => Priority::Lowest,
    }
}

/// Whether a kind is one of the eight binary operators.
pub open spec fn is_infix_operator(kind: TokenKind) -> bool {
    kind == TokenKind::Plus || kind == TokenKind::Minus || kind == TokenKind::Asterisk || kind
        == TokenKind::Slash || kind == TokenKind::Equal || kind == TokenKind::NotEqual || kind
        == TokenKind::LessThan || kind == TokenKind::GreaterThan
}

/// Looks up the binding strength of a token kind.
pub fn get_priority(token_kind: TokenKind) -> (p: Priority)
    ensures
        p == priority_of(token_kind),
        p.rank() > 0 <==> is_infix_operator(token_kind) || token_kind == TokenKind::Lparen,
{
    match token_kind {
        TokenKind::Equal | TokenKind::NotEqual => Priority::Equals,
        TokenKind::LessThan | TokenKind::GreaterThan => Priority::LessGreater,
        TokenKind::Plus | TokenKind::Minus => Priority::Sum,
        TokenKind::Asterisk | TokenKind::Slash => Priority::Product,
        TokenKind::Lparen => Priority::Call,
        _ => Priority::Lowest,
    }
}

/// The name of a kind, as it is written in the enumeration.
pub open spec fn kind_name(kind: TokenKind) -> Seq<char> {
    match kind {
        TokenKind::Plus => "Plus"@,
        TokenKind::Minus => "Minus"@,
        TokenKind::Asterisk => "Asterisk"@,
        TokenKind::Slash => "Slash"@,
        TokenKind::Bang => "Bang"@,
        TokenKind::Assign => "Assign"@,
        TokenKind::Equal => "Equal"@,
        TokenKind::NotEqual => "NotEqual"@,
        TokenKind::LessThan => "LessThan"@,
        TokenKind::GreaterThan => "GreaterThan"@,
        TokenKind::And => "And"@,
        TokenKind::Or => "Or"@,
        TokenKind::Dot => "Dot"@,
        TokenKind::Lparen => "Lparen"@,
        TokenKind::Rparen => "Rparen"@,
        TokenKind::Lcurly => "Lcurly"@,
        TokenKind::Rcurly => "Rcurly"@,
        TokenKind::Lsquare => "Lsquare"@,
        TokenKind::Rsquare => "Rsquare"@,
        TokenKind::Colon => "Colon"@,
        TokenKind::SemiColon => "SemiColon"@,
        TokenKind::Comma => "Comma"@,
        TokenKind::Void => "Void"@,
        TokenKind::Return => "Return"@,
        TokenKind::If => "If"@,
        TokenKind::Else => "Else"@,
        TokenKind::While => "While"@,
        TokenKind::For => "For"@,
        TokenKind::Let => "Let"@,
        TokenKind::Fn => "Fn"@,
        TokenKind::New => "New"@,
        TokenKind::Class => "Class"@,
        TokenKind::Int => "Int"@,
        TokenKind::Double => "Double"@,
        TokenKind::Boolean => "Boolean"@,
        TokenKind::IntLiteral => "IntLiteral"@,
        TokenKind::DoubleLiteral => "DoubleLiteral"@,
        TokenKind::StringLiteral => "StringLiteral"@,
        TokenKind::BoolLiteral => "BoolLiteral"@,
        TokenKind::Ident => "Ident"@,
        TokenKind::Other => "Other"@,
    }
}

impl TokenKind {
    /// The name of the kind, as it is written in the enumeration.
    pub fn name(self) -> (s: &'static str)
        ensures
            s@ == kind_name(self),
    {
        match self {
            TokenKind::Plus => "Plus",
            TokenKind::Minus => "Minus",
            TokenKind::Asterisk => "Asterisk",
            TokenKind::Slash => "Slash",
            TokenKind::Bang => "Bang",
            TokenKind::Assign => "Assign",
            TokenKind::Equal => "Equal",
            TokenKind::NotEqual => "NotEqual",
            TokenKind::LessThan => "LessThan",
            TokenKind::GreaterThan => "GreaterThan",
            TokenKind::And => "And",
            TokenKind::Or => "Or",
            TokenKind::Dot => "Dot",
            TokenKind::Lparen => "Lparen",
            TokenKind::Rparen => "Rparen",
            TokenKind::Lcurly => "Lcurly",
            TokenKind::Rcurly => "Rcurly",
            TokenKind::Lsquare => "Lsquare",
            TokenKind::Rsquare => "Rsquare",
            TokenKind::Colon => "Colon",
            TokenKind::SemiColon => "SemiColon",
            TokenKind::Comma => "Comma",
            TokenKind::Void => "Void",
            TokenKind::Return => "Return",
            TokenKind::If => "If",
            TokenKind::Else => "Else",
            TokenKind::While => "While",
            TokenKind::For => "For",
            TokenKind::Let => "Let",
            TokenKind::Fn => "Fn",
            TokenKind::New => "New",
            TokenKind::Class => "Class",
            TokenKind::Int => "Int",
            TokenKind::Double => "Double",
            TokenKind::Boolean => "Boolean",
            TokenKind::IntLiteral => "IntLiteral",
            TokenKind::DoubleLiteral => "DoubleLiteral",
            TokenKind::StringLiteral => "StringLiteral",
            TokenKind::BoolLiteral => "BoolLiteral",
            TokenKind::Ident => "Ident",
            TokenKind::Other => "Other",
        }
    }
}

/// A token: its kind and its literal text.
#[derive(Debug)]
pub struct Token {
    pub token_kind: TokenKind,
    pub value: String,
}

/// What a token is to the specifications: its kind and its text as a
/// sequence of characters.
pub struct TokenView {
    pub kind: TokenKind,
    pub text: Seq<char>,
}

impl View for Token {
    type V = TokenView;

    open spec fn view(&self) -> TokenView {
        TokenView { kind: self.token_kind, text: self.value@ }
    }
}

impl Clone for Token {
    fn clone(&self) -> (r: Self)
        ensures
            r == *self,
    {
        Token { token_kind: self.token_kind, value: self.value.clone() }
    }
}

/// The one-line description of a token: its kind, then its text in `Debug`
/// form.
pub open spec fn token_description(t: TokenView) -> Seq<char> {
    "Token: "@ + kind_name(t.kind) + ", "@ + debug_quoted(t.text)
}

impl Token {
    /// A token of the given kind and text.
    pub fn new(token_kind: TokenKind, value: String) -> (t: Self)
        ensures
            t.token_kind == token_kind,
            t.value == value,
    {
        Token { token_kind, value }
    }

    /// Whether the token has the given kind.
    pub fn is_same_kind(&self, kind: TokenKind) -> (b: bool)
        ensures
            b == (self.token_kind == kind),
    {
        self.token_kind == kind
    }

    /// Describes the token on one line.
    pub fn to_string(&self) -> (s: String)
        ensures
            s@ == token_description(self@),
    {
        let mut s = String::from_str("Token: ");
        s.append(self.token_kind.name());
        s.append(", ");
        let quoted = debug_text(self.value.as_str());
        s.append(quoted.as_str());
        s
    }
}

} // verus!
