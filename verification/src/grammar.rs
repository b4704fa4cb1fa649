//! The grammar, as mathematical functions from a token stream to syntax
//! trees. The contracts of the parser are stated over these functions.
//!
//! Every rule takes a [`Cursor`] and gives a [`Parsed`]: a tree or an
//! error, and the cursor where the rule stopped. A rule that goes on after
//! another rule first tests that the other rule did not move the cursor
//! backwards ([`Cursor::not_before`]). The test never fails, as
//! [`crate::progress`] shows; it is there to make the rules well-founded.
use crate::ast::expression::ExpressionView;
use crate::ast::statement::StatementView;
use crate::progress::lemma_statement_never_rewinds;
use crate::text::integer_of;
use crate::token::{kind_name, priority_of, Priority, TokenKind, TokenView};
use vstd::prelude::*;

verus! {

/// What a parse error is to the specifications.
pub struct ParseErrorView {
    pub message: Seq<char>,
    pub uncheck: bool,
}

/// The position of a parser in a token stream: the current token and the
/// tokens still to come, the lookahead token first.
pub struct Cursor {
    pub token: TokenView,
    pub rest: Seq<TokenView>,
}

impl Cursor {
    /// Whether the lookahead token exists and has the given kind.
    pub open spec fn peek_is(self, kind: TokenKind) -> bool {
        self.rest.len() > 0 && self.rest[0].kind == kind
    }

    /// The cursor moved onto the lookahead token.
    pub open spec fn advance(self) -> Cursor
        recommends
            self.rest.len() > 0,
    {
        Cursor { token: self.rest[0], rest: self.rest.skip(1) }
    }

    /// The cursor moved past a statement terminator, if one comes next.
    pub open spec fn skip_terminator(self) -> Cursor {
        if self.peek_is(TokenKind::SemiColon) {
            self.advance()
        } else {
            self
        }
    }

    /// Whether `self` has at most as many tokens to come as `before`.
    pub open spec fn not_before(self, before: Cursor) -> bool {
        self.rest.len() <= before.rest.len()
    }
}

/// The result of a sub-parser: a value or an error, and where the cursor
/// was left.
pub struct Parsed<T> {
    pub outcome: Result<T, ParseErrorView>,
    pub cursor: Cursor,
}

/// A successful parse.
pub open spec fn done<T>(value: T, cursor: Cursor) -> Parsed<T> {
    Parsed { outcome: Ok(value), cursor }
}

/// A failed parse with a reportable error.
pub open spec fn failed<T>(message: Seq<char>, cursor: Cursor) -> Parsed<T> {
    Parsed { outcome: Err(ParseErrorView { message, uncheck: false }), cursor }
}

/// The failure of a sub-parser, handed on unchanged.
pub open spec fn rethrow<T, U>(p: Parsed<T>) -> Parsed<U>
    recommends
        p.outcome is Err,
{
    Parsed { outcome: Err(p.outcome->Err_0), cursor: p.cursor }
}

/// The message for a lookahead token of the wrong kind, or a missing one.
pub open spec fn unexpected_token_message(expected: TokenKind, found: Option<TokenKind>) -> Seq<
    char,
> {
    match found {
        Some(kind) => "expected next token to be "@ + kind_name(expected) + ", got "@ + kind_name(
            kind,
        ) + " instead"@,
        None => "expected next token is "@ + kind_name(expected),
    }
}

/// The message for a token that cannot start an expression.
pub open spec fn no_prefix_message(found: TokenKind) -> Seq<char> {
    "no prefix but found "@ + kind_name(found)
}

/// The message for an integer literal that does not fit 32 bits.
pub open spec fn bad_integer_message(text: Seq<char>) -> Seq<char> {
    "could not parse "@ + text + " as integer."@
}

/// The message for a boolean literal that is neither `true` nor `false`.
pub open spec fn bad_boolean_message(text: Seq<char>) -> Seq<char> {
    "could not parse "@ + text + " as boolean."@
}

/// The message for a parenthesized expression without its closing
/// parenthesis.
pub open spec fn unclosed_group_message() -> Seq<char> {
    "expected ')' but not found."@
}

/// The message for a construct cut short by the end of the token stream.
pub open spec fn end_of_input_message() -> Seq<char> {
    "unexpected end of input"@
}

/// Requires the lookahead token to have the given kind and moves onto it.
/// Otherwise the cursor stays where it is.
pub open spec fn expect(c: Cursor, kind: TokenKind) -> Parsed<TokenView> {
    if c.rest.len() == 0 {
        failed(unexpected_token_message(kind, None), c)
    } else if c.rest[0].kind == kind {
        done(c.rest[0], c.advance())
    } else {
        failed(unexpected_token_message(kind, Some(c.rest[0].kind)), c)
    }
}

/// Whether precedence climbing goes on past the cursor: a token comes next
/// and binds more strongly than `min`. Only the binary operators and the
/// opening parenthesis of a call bind at all.
pub open spec fn continues(c: Cursor, min: nat) -> bool {
    c.rest.len() > 0 && min < priority_of(c.rest[0].kind).rank()
}

/// One statement, chosen by the current token: `let`, `return`, or an
/// expression.
pub open spec fn statement(c: Cursor) -> Parsed<StatementView>
    decreases c.rest.len(), 9nat,
{
    match c.token.kind {
        TokenKind::Let => let_statement(c),
        TokenKind::Return => return_statement(c),
        _ => expression_statement(c),
    }
}

/// `let <identifier> = <expression>`, with an optional terminator. The
/// cursor is on `let`.
pub open spec fn let_statement(c: Cursor) -> Parsed<StatementView>
    decreases c.rest.len(), 8nat,
{
    let name = expect(c, TokenKind::Ident);
    let assign = expect(name.cursor, TokenKind::Assign);
    if name.outcome is Err {
        rethrow(name)
    } else if assign.outcome is Err {
        rethrow(assign)
    } else if assign.cursor.rest.len() == 0 {
        failed(end_of_input_message(), assign.cursor)
    } else {
        let value = expression(assign.cursor.advance(), Priority::Lowest.rank());
        match value.outcome {
            Err(_) => rethrow(value),
            Ok(v) => done(
                StatementView::LetStatement {
                    name: ExpressionView::Identifier(name.outcome->Ok_0.text),
                    value: v,
                },
                value.cursor.skip_terminator(),
            ),
        }
    }
}

/// `return <expression>`, with an optional terminator. The cursor is on
/// `return`.
pub open spec fn return_statement(c: Cursor) -> Parsed<StatementView>
    decreases c.rest.len(), 8nat,
{
    if c.rest.len() == 0 {
        failed(end_of_input_message(), c)
    } else {
        let value = expression(c.advance(), Priority::Lowest.rank());
        match value.outcome {
            Err(_) => rethrow(value),
            Ok(v) => done(
                StatementView::ReturnStatement { value: v },
                value.cursor.skip_terminator(),
            ),
        }
    }
}

/// An expression used as a statement, with an optional terminator. The
/// cursor is on the first token of the expression.
pub open spec fn expression_statement(c: Cursor) -> Parsed<StatementView>
    decreases c.rest.len(), 8nat,
{
    let value = expression(c, Priority::Lowest.rank());
    match value.outcome {
        Err(_) => rethrow(value),
        Ok(v) => done(
            StatementView::ExpressionStatement { value: v },
            value.cursor.skip_terminator(),
        ),
    }
}

/// A block. The cursor is on `{`, and is left on the matching `}`.
pub open spec fn block(c: Cursor) -> Parsed<StatementView>
    decreases c.rest.len(), 4nat,
{
    if c.rest.len() == 0 {
        failed(end_of_input_message(), c)
    } else {
        let items = block_items(c.advance(), Seq::empty());
        match items.outcome {
            Err(_) => rethrow(items),
            Ok(statements) => done(StatementView::BlockStatement { statements }, items.cursor),
        }
    }
}

/// The statements of a block from the cursor up to the closing `}`, after
/// the statements `acc` already read.
pub open spec fn block_items(c: Cursor, acc: Seq<StatementView>) -> Parsed<Seq<StatementView>>
    decreases c.rest.len(), 10nat,
{
    if c.token.kind == TokenKind::Rcurly {
        done(acc, c)
    } else {
        let item = statement(c);
        match item.outcome {
            Err(_) => rethrow(item),
            Ok(s) => if item.cursor.rest.len() > 0 && item.cursor.not_before(c) {
                block_items(item.cursor.advance(), acc.push(s))
            } else {
                failed(end_of_input_message(), item.cursor)
            },
        }
    }
}

/// An expression whose operators all bind more strongly than `min`:
/// a prefix form, then every continuation that precedence allows.
pub open spec fn expression(c: Cursor, min: nat) -> Parsed<ExpressionView>
    decreases c.rest.len(), 7nat,
{
    let left = prefix(c);
    match left.outcome {
        Err(_) => left,
        Ok(e) => if left.cursor.not_before(c) {
            climb(e, left.cursor, min)
        } else {
            left
        },
    }
}

/// The form that the current token starts.
pub open spec fn prefix(c: Cursor) -> Parsed<ExpressionView>
    decreases c.rest.len(), 6nat,
{
    match c.token.kind {
        TokenKind::Ident => done(ExpressionView::Identifier(c.token.text), c),
        TokenKind::IntLiteral => match integer_of(c.token.text) {
            Some(value) => done(ExpressionView::IntegerLiteral(value), c),
            None => failed(bad_integer_message(c.token.text), c),
        },
        TokenKind::BoolLiteral => if c.token.text == "true"@ {
            done(ExpressionView::BooleanLiteral(true), c)
        } else if c.token.text == "false"@ {
            done(ExpressionView::BooleanLiteral(false), c)
        } else {
            failed(bad_boolean_message(c.token.text), c)
        },
        TokenKind::Bang | TokenKind::Minus => prefix_operator(c),
        TokenKind::Lparen => grouped(c),
        TokenKind::If => if_expression(c),
        TokenKind::Fn => function_literal(c),
        other => failed(no_prefix_message(other), c),
    }
}

/// A prefix operator and its operand, which binds at `Prefix` strength.
/// The cursor is on the operator.
pub open spec fn prefix_operator(c: Cursor) -> Parsed<ExpressionView>
    decreases c.rest.len(), 5nat,
{
    if c.rest.len() == 0 {
        failed(end_of_input_message(), c)
    } else {
        let right = expression(c.advance(), Priority::Prefix.rank());
        match right.outcome {
            Err(_) => right,
            Ok(r) => done(
                ExpressionView::PrefixExpression { operator: c.token.text, right: Box::new(r) },
                right.cursor,
            ),
        }
    }
}

/// A parenthesized expression. The cursor is on `(`, and is left on the
/// matching `)`.
pub open spec fn grouped(c: Cursor) -> Parsed<ExpressionView>
    decreases c.rest.len(), 5nat,
{
    if c.rest.len() == 0 {
        failed(end_of_input_message(), c)
    } else {
        let inner = expression(c.advance(), Priority::Lowest.rank());
        match inner.outcome {
            Err(_) => inner,
            Ok(e) => if inner.cursor.peek_is(TokenKind::Rparen) {
                done(e, inner.cursor.advance())
            } else {
                failed(unclosed_group_message(), inner.cursor)
            },
        }
    }
}

/// The continuations of `left`: while the lookahead token binds more
/// strongly than `min`, it is consumed, as a binary operator or as the
/// opening parenthesis of a call, with what was built so far as its left
/// operand.
pub open spec fn climb(left: ExpressionView, c: Cursor, min: nat) -> Parsed<ExpressionView>
    decreases c.rest.len(), 6nat,
{
    if !continues(c, min) {
        done(left, c)
    } else {
        let on = c.advance();
        let step = if on.token.kind == TokenKind::Lparen {
            call(left, on)
        } else {
            infix(left, on)
        };
        match step.outcome {
            Err(_) => step,
            Ok(next) => if step.cursor.not_before(on) {
                climb(next, step.cursor, min)
            } else {
                step
            },
        }
    }
}

/// A binary operator and its right operand, which binds more strongly than
/// the operator itself. The cursor is on the operator.
pub open spec fn infix(left: ExpressionView, c: Cursor) -> Parsed<ExpressionView>
    decreases c.rest.len(), 5nat,
{
    if c.rest.len() == 0 {
        failed(end_of_input_message(), c)
    } else {
        let right = expression(c.advance(), priority_of(c.token.kind).rank());
        match right.outcome {
            Err(_) => right,
            Ok(r) => done(
                ExpressionView::InfixExpression {
                    left: Box::new(left),
                    operator: c.token.text,
                    right: Box::new(r),
                },
                right.cursor,
            ),
        }
    }
}

/// A call of `function`. The cursor is on `(`, and is left on the matching
/// `)`.
pub open spec fn call(function: ExpressionView, c: Cursor) -> Parsed<ExpressionView>
    decreases c.rest.len(), 5nat,
{
    let list = arguments(c);
    match list.outcome {
        Err(_) => rethrow(list),
        Ok(arguments) => done(
            ExpressionView::CallExpression { function: Box::new(function), arguments },
            list.cursor,
        ),
    }
}

/// The arguments of a call: expressions separated by commas, up to the
/// closing parenthesis. The cursor is on `(`.
pub open spec fn arguments(c: Cursor) -> Parsed<Seq<ExpressionView>>
    decreases c.rest.len(), 4nat,
{
    if c.rest.len() == 0 {
        failed(end_of_input_message(), c)
    } else if c.advance().token.kind == TokenKind::Rparen {
        done(Seq::empty(), c.advance())
    } else {
        let first = expression(c.advance(), Priority::Lowest.rank());
        match first.outcome {
            Err(_) => rethrow(first),
            Ok(e) => if first.cursor.not_before(c.advance()) {
                more_arguments(first.cursor, seq![e])
            } else {
                done(seq![e], first.cursor)
            },
        }
    }
}

/// The arguments after those in `acc`: while a comma comes next, one more
/// expression; then the closing parenthesis.
pub open spec fn more_arguments(c: Cursor, acc: Seq<ExpressionView>) -> Parsed<Seq<ExpressionView>>
    decreases c.rest.len(), 3nat,
{
    if c.peek_is(TokenKind::Comma) {
        let comma = c.advance();
        if comma.rest.len() == 0 {
            failed(end_of_input_message(), comma)
        } else {
            let next = expression(comma.advance(), Priority::Lowest.rank());
            match next.outcome {
                Err(_) => rethrow(next),
                Ok(e) => if next.cursor.not_before(comma.advance()) {
                    more_arguments(next.cursor, acc.push(e))
                } else {
                    done(acc.push(e), next.cursor)
                },
            }
        }
    } else {
        let close = expect(c, TokenKind::Rparen);
        match close.outcome {
            Err(_) => rethrow(close),
            Ok(_) => done(acc, close.cursor),
        }
    }
}

/// The parameters of a function literal: tokens separated by commas, each
/// read as an identifier, up to the closing parenthesis. The cursor is on
/// `(`.
pub open spec fn parameters(c: Cursor) -> Parsed<Seq<ExpressionView>> {
    if c.rest.len() == 0 {
        failed(end_of_input_message(), c)
    } else if c.advance().token.kind == TokenKind::Rparen {
        done(Seq::empty(), c.advance())
    } else {
        more_parameters(c.advance(), seq![ExpressionView::Identifier(c.advance().token.text)])
    }
}

/// The parameters after those in `acc`: while a comma comes next, one more
/// identifier; then the closing parenthesis.
pub open spec fn more_parameters(c: Cursor, acc: Seq<ExpressionView>) -> Parsed<
    Seq<ExpressionView>,
>
    decreases c.rest.len(),
{
    if c.peek_is(TokenKind::Comma) {
        let comma = c.advance();
        if comma.rest.len() == 0 {
            failed(end_of_input_message(), comma)
        } else {
            let on = comma.advance();
            more_parameters(on, acc.push(ExpressionView::Identifier(on.token.text)))
        }
    } else {
        let close = expect(c, TokenKind::Rparen);
        match close.outcome {
            Err(_) => rethrow(close),
            Ok(_) => done(acc, close.cursor),
        }
    }
}

/// Reading parameters never moves the cursor backwards.
pub proof fn lemma_more_parameters_advance(c: Cursor, acc: Seq<ExpressionView>)
    ensures
        more_parameters(c, acc).cursor.not_before(c),
    decreases c.rest.len(),
{
    if c.peek_is(TokenKind::Comma) {
        let comma = c.advance();
        if comma.rest.len() > 0 {
            let on = comma.advance();
            lemma_more_parameters_advance(on, acc.push(ExpressionView::Identifier(on.token.text)));
        }
    }
}

/// `fn (<parameters>) <block>`. The cursor is on `fn`, and is left on the
/// `}` that closes the body.
pub open spec fn function_literal(c: Cursor) -> Parsed<ExpressionView>
    decreases c.rest.len(), 5nat,
{
    let open = expect(c, TokenKind::Lparen);
    let list = parameters(open.cursor);
    let brace = expect(list.cursor, TokenKind::Lcurly);
    if open.outcome is Err {
        rethrow(open)
    } else if list.outcome is Err {
        rethrow(list)
    } else if brace.outcome is Err {
        rethrow(brace)
    } else {
        proof {
            lemma_more_parameters_advance(
                open.cursor.advance(),
                seq![ExpressionView::Identifier(open.cursor.advance().token.text)],
            );
        }
        let body = block(brace.cursor);
        match body.outcome {
            Err(_) => rethrow(body),
            Ok(b) => done(
                ExpressionView::FunctionLiteral {
                    parameters: list.outcome->Ok_0,
                    body: Box::new(b),
                },
                body.cursor,
            ),
        }
    }
}

/// `if (<condition>) <block>`, optionally followed by `else <block>`. The
/// cursor is on `if`, and is left on the `}` that closes the last block.
pub open spec fn if_expression(c: Cursor) -> Parsed<ExpressionView>
    decreases c.rest.len(), 5nat,
{
    let open = expect(c, TokenKind::Lparen);
    if open.outcome is Err {
        rethrow(open)
    } else if open.cursor.rest.len() == 0 {
        failed(end_of_input_message(), open.cursor)
    } else {
        let condition = expression(open.cursor.advance(), Priority::Lowest.rank());
        let close = expect(condition.cursor, TokenKind::Rparen);
        let brace = expect(close.cursor, TokenKind::Lcurly);
        if condition.outcome is Err || !condition.cursor.not_before(c) {
            condition
        } else if close.outcome is Err {
            rethrow(close)
        } else if brace.outcome is Err {
            rethrow(brace)
        } else {
            if_branches(condition.outcome->Ok_0, brace.cursor)
        }
    }
}

/// The branches of a conditional with the given condition: a block, and
/// after an `else` a second block. The cursor is on the `{` of the first.
pub open spec fn if_branches(condition: ExpressionView, c: Cursor) -> Parsed<ExpressionView>
    decreases c.rest.len(), 5nat,
{
    let consequence = block(c);
    match consequence.outcome {
        Err(_) => rethrow(consequence),
        Ok(first) => if consequence.cursor.peek_is(TokenKind::Else)
            && consequence.cursor.not_before(c) {
            else_branch(condition, first, consequence.cursor.advance())
        } else {
            done(
                ExpressionView::IfExpression {
                    condition: Box::new(condition),
                    consequence: Box::new(first),
                    alternative: None,
                },
                consequence.cursor,
            )
        },
    }
}

/// The second branch of a conditional with the given condition and first
/// branch. The cursor is on `else`.
pub open spec fn else_branch(
    condition: ExpressionView,
    consequence: StatementView,
    c: Cursor,
) -> Parsed<ExpressionView>
    decreases c.rest.len(), 5nat,
{
    let brace = expect(c, TokenKind::Lcurly);
    if brace.outcome is Err {
        rethrow(brace)
    } else {
        let alternative = block(brace.cursor);
        match alternative.outcome {
            Err(_) => rethrow(alternative),
            Ok(second) => done(
                ExpressionView::IfExpression {
                    condition: Box::new(condition),
                    consequence: Box::new(consequence),
                    alternative: Some(Box::new(second)),
                },
                alternative.cursor,
            ),
        }
    }
}

/// The outcomes of the statements from the cursor to the end of the token
/// stream, after the outcomes `acc` already known: while tokens are left,
/// the cursor moves onto the next one and a statement is parsed there. A
/// failure does not end the program, and the next statement starts after
/// the place where the failed one left the cursor.
pub open spec fn outcomes_from(
    c: Cursor,
    acc: Seq<Result<StatementView, ParseErrorView>>,
) -> Seq<Result<StatementView, ParseErrorView>>
    decreases c.rest.len(),
{
    if c.rest.len() == 0 {
        acc
    } else {
        let item = statement(c.advance());
        proof {
            lemma_statement_never_rewinds(c.advance());
        }
        outcomes_from(item.cursor, acc.push(item.outcome))
    }
}

/// A whole program: the outcome of every statement, in order.
pub open spec fn program(c: Cursor) -> Seq<Result<StatementView, ParseErrorView>> {
    outcomes_from(c, Seq::empty())
}

/// The statements among the outcomes of a program, in order.
pub open spec fn successes(outcomes: Seq<Result<StatementView, ParseErrorView>>) -> Seq<
    StatementView,
>
    decreases outcomes.len(),
{
    if outcomes.len() == 0 {
        Seq::empty()
    } else {
        match outcomes.last() {
            Ok(s) => successes(outcomes.drop_last()).push(s),
            Err(_) => successes(outcomes.drop_last()),
        }
    }
}

} // verus!
