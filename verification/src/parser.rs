//! The parser: a cursor over the tokens of a tokenizer that builds
//! statements and expressions by precedence climbing.
use crate::ast::expression::{expression_views, Expression, ExpressionView};
use crate::ast::statement::{Statement, StatementView};
use crate::grammar;
use crate::grammar::{Cursor, ParseErrorView};
use crate::lexer::{token_stream, Lexer};
use crate::token::{get_priority, priority_of, Priority, Token, TokenKind, TokenView};
use vstd::prelude::*;
use vstd::string::StringExecFns;

mod expressions;
mod forms;
mod program;
mod statements;

verus! {

/// Why a statement could not be parsed.
#[derive(Debug)]
pub struct ParseError {
    /// What went wrong, for a human reader.
    pub message: String,
    /// Whether the error is a mere signal that should not be reported.
    pub uncheck: bool,
}

impl View for ParseError {
    type V = ParseErrorView;

    open spec fn view(&self) -> ParseErrorView {
        ParseErrorView { message: self.message@, uncheck: self.uncheck }
    }
}

impl ParseError {
    /// A failure with a reportable error that carries `message`.
    pub fn throw<T>(message: String) -> (r: Result<T, Self>)
        ensures
            r is Err,
            r->Err_0@ == (ParseErrorView { message: message@, uncheck: false }),
    {
        Err(ParseError { message, uncheck: false })
    }

    /// A failure with a suppressed error, which carries no message.
    pub fn uncheck<T>() -> (r: Result<T, Self>)
        ensures
            r is Err,
            r->Err_0@ == (ParseErrorView { message: Seq::empty(), uncheck: true }),
    {
        Err(ParseError { message: String::new(), uncheck: true })
    }

    /// The line that reports the error.
    pub fn to_string(&self) -> (s: String)
        ensures
            s@ == "ParseError: "@ + self.message@,
    {
        let mut s = String::from_str("ParseError: ");
        s.append(self.message.as_str());
        s
    }
}

/// The outcome of parsing a token, as a view.
pub open spec fn token_outcome(r: Result<Token, ParseError>) -> Result<TokenView, ParseErrorView> {
    match r {
        Ok(t) => Ok(t@),
        Err(e) => Err(e@),
    }
}

/// The outcome of parsing an expression, as a view.
pub open spec fn expression_outcome(r: Result<Expression, ParseError>) -> Result<
    ExpressionView,
    ParseErrorView,
> {
    match r {
        Ok(e) => Ok(e@),
        Err(e) => Err(e@),
    }
}

/// The outcome of parsing a statement, as a view.
pub open spec fn statement_outcome(r: Result<Statement, ParseError>) -> Result<
    StatementView,
    ParseErrorView,
> {
    match r {
        Ok(s) => Ok(s@),
        Err(e) => Err(e@),
    }
}

/// The outcome of parsing a list of expressions, as a view.
pub open spec fn list_outcome(r: Result<Vec<Box<Expression>>, ParseError>) -> Result<
    Seq<ExpressionView>,
    ParseErrorView,
> {
    match r {
        Ok(items) => Ok(expression_views(items@)),
        Err(e) => Err(e@),
    }
}

/// The outcomes of parsing the statements of a program, as views.
pub open spec fn outcome_views(outcomes: Seq<Result<Statement, ParseError>>) -> Seq<
    Result<StatementView, ParseErrorView>,
> {
    Seq::new(outcomes.len(), |i: int| statement_outcome(outcomes[i]))
}

/// A failure for a lookahead token of the wrong kind, or a missing one.
fn unexpected_token<T>(expected: TokenKind, found: Option<TokenKind>) -> (r: Result<T, ParseError>)
    ensures
        r is Err,
        r->Err_0@ == (ParseErrorView {
            message: grammar::unexpected_token_message(expected, found),
            uncheck: false,
        }),
{
    match found {
        Some(kind) => {
            let mut message = String::from_str("expected next token to be ");
            message.append(expected.name());
            message.append(", got ");
            message.append(kind.name());
            message.append(" instead");
            ParseError::throw(message)
        },
        None => {
            let mut message = String::from_str("expected next token is ");
            message.append(expected.name());
            ParseError::throw(message)
        },
    }
}

/// A failure for a construct cut short by the end of the token stream.
pub(crate) fn end_of_input<T>() -> (r: Result<T, ParseError>)
    ensures
        r is Err,
        r->Err_0@ == (ParseErrorView {
            message: grammar::end_of_input_message(),
            uncheck: false,
        }),
{
    ParseError::throw(String::from_str("unexpected end of input"))
}

/// The parser: the tokenizer it draws from, the current token, and one
/// token of lookahead.
pub struct Parser {
    lexer: Lexer,
    token: Token,
    peek: Option<Token>,
}

impl View for Parser {
    type V = Cursor;

    /// The current token and all the tokens still to come.
    closed spec fn view(&self) -> Cursor {
        self.cursor()
    }
}

/// Where a parser starts on the text `src`: before the first token, on a
/// placeholder of kind `Other` without text.
pub open spec fn initial_cursor(src: Seq<char>) -> Cursor {
    Cursor {
        token: TokenView { kind: TokenKind::Other, text: Seq::empty() },
        rest: token_stream(src),
    }
}

impl Parser {
    /// The current token and all the tokens still to come.
    #[verifier::opaque]
    closed spec fn cursor(&self) -> Cursor {
        Cursor {
            token: self.token@,
            rest: match self.peek {
                Some(p) => seq![p@] + token_stream(self.lexer@),
                None => Seq::empty(),
            },
        }
    }

    /// The tokenizer inside is in a valid state.
    pub closed spec fn wf(&self) -> bool {
        self.lexer.wf()
    }

    /// The kind of the current token.
    pub(crate) fn current_kind(&self) -> (kind: TokenKind)
        ensures
            kind == self@.token.kind,
    {
        proof {
            reveal(Parser::cursor);
        }
        self.token.token_kind
    }

    /// The text of the current token.
    pub(crate) fn current_text(&self) -> (text: String)
        ensures
            text@ == self@.token.text,
    {
        proof {
            reveal(Parser::cursor);
        }
        self.token.value.clone()
    }

    /// A parser over the tokens of `lexer`, placed before the first one.
    pub fn new(lexer: Lexer) -> (parser: Self)
        requires
            lexer.wf(),
        ensures
            parser.wf(),
            parser@ == initial_cursor(lexer@),
    {
        proof {
            reveal(Parser::cursor);
        }
        let mut lexer = lexer;
        let peek = lexer.next_token();
        Parser { lexer, token: Token::new(TokenKind::Other, String::new()), peek }
    }

    /// Moves onto the lookahead token if it has the given kind, and fails
    /// without moving otherwise.
    pub(crate) fn expect_next(&mut self, token_kind: TokenKind) -> (r: Result<Token, ParseError>)
        requires
            old(self).wf(),
        ensures
            final(self).wf(),
            token_outcome(r) == grammar::expect(old(self)@, token_kind).outcome,
            final(self)@ == grammar::expect(old(self)@, token_kind).cursor,
    {
        proof {
            reveal(Parser::cursor);
        }
        let found = match &self.peek {
            Some(t) => Some(t.token_kind),
            None => None,
        };
        match found {
            Some(kind) => {
                if kind == token_kind {
                    self.next_token();
                    Ok(self.token.clone())
                } else {
                    unexpected_token(token_kind, found)
                }
            },
            None => unexpected_token(token_kind, found),
        }
    }

    /// Whether the lookahead token exists and has the given kind.
    pub(crate) fn peek_token_is(&self, token_kind: TokenKind) -> (b: bool)
        requires
            self.wf(),
        ensures
            b == self@.peek_is(token_kind),
    {
        proof {
            reveal(Parser::cursor);
        }
        match &self.peek {
            Some(p) => p.is_same_kind(token_kind),
            None => false,
        }
    }

    /// Moves the cursor onto the lookahead token and draws a new lookahead
    /// token from the tokenizer. Returns `false`, and moves nothing, when no
    /// token is left.
    pub fn next_token(&mut self) -> (moved: bool)
        requires
            old(self).wf(),
        ensures
            final(self).wf(),
            moved == (old(self)@.rest.len() > 0),
            moved ==> final(self)@ == old(self)@.advance(),
            !moved ==> final(self)@ == old(self)@,
    {
        proof {
            reveal(Parser::cursor);
        }
        match &self.peek {
            Some(p) => {
                self.token = p.clone();
                self.peek = self.lexer.next_token();
                assert(self@.rest =~= old(self)@.rest.skip(1));
                true
            },
            None => false,
        }
    }

    /// The binding strength of the lookahead token, or `Lowest` at the end.
    pub(crate) fn peek_priority(&self) -> (p: Priority)
        requires
            self.wf(),
        ensures
            self@.rest.len() > 0 ==> p == priority_of(self@.rest[0].kind),
            self@.rest.len() == 0 ==> p == Priority::Lowest,
    {
        proof {
            reveal(Parser::cursor);
        }
        match &self.peek {
            Some(peek) => get_priority(peek.token_kind),
            None => Priority::Lowest,
        }
    }
}

} // verus!
