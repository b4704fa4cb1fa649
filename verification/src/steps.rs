//! The grammar one step at a time: what each rule yields, given what the
//! rules it calls yield.
//!
//! The predicates of this module say that a rule, started at a cursor,
//! succeeds with a given value and leaves a given cursor. They are opaque,
//! so that a proof can chain steps without looking into the rules.
use crate::ast::expression::ExpressionView;
use crate::ast::statement::StatementView;
use crate::grammar::{
    arguments, block, block_items, climb, continues, done, expression, more_arguments,
    more_parameters, parameters, prefix, statement, Cursor,
};
use crate::text::integer_of;
use crate::token::{priority_of, Priority, TokenKind};
use vstd::prelude::*;

verus! {

/// An expression read at `c` at strength `min` is `e`, and leaves `end`.
#[verifier::opaque]
pub open spec fn expression_is(c: Cursor, min: nat, e: ExpressionView, end: Cursor) -> bool {
    expression(c, min) == done(e, end)
}

/// The prefix form read at `c` is `e`, and leaves `end`.
#[verifier::opaque]
pub open spec fn prefix_is(c: Cursor, e: ExpressionView, end: Cursor) -> bool {
    prefix(c) == done(e, end)
}

/// Climbing from `left` at `c` at strength `min` ends with `e`, and leaves
/// `end`.
#[verifier::opaque]
pub open spec fn climb_is(
    left: ExpressionView,
    c: Cursor,
    min: nat,
    e: ExpressionView,
    end: Cursor,
) -> bool {
    climb(left, c, min) == done(e, end)
}

/// The statement read at `c` is `s`, and leaves `end`.
#[verifier::opaque]
pub open spec fn statement_is(c: Cursor, s: StatementView, end: Cursor) -> bool {
    statement(c) == done(s, end)
}

/// The block read at `c` is `b`, and leaves `end`.
#[verifier::opaque]
pub open spec fn block_is(c: Cursor, b: StatementView, end: Cursor) -> bool {
    block(c) == done(b, end)
}

/// The branches of a conditional with the given condition, read at `c`,
/// make the conditional `e`, and leave `end`.
#[verifier::opaque]
pub open spec fn branches_are(
    condition: ExpressionView,
    c: Cursor,
    e: ExpressionView,
    end: Cursor,
) -> bool {
    crate::grammar::if_branches(condition, c) == done(e, end)
}

/// The statements of a block read from `c`, after those in `acc`, make the
/// list `all`, and leave `end`.
#[verifier::opaque]
pub open spec fn items_are(
    c: Cursor,
    acc: Seq<StatementView>,
    all: Seq<StatementView>,
    end: Cursor,
) -> bool {
    block_items(c, acc) == done(all, end)
}

/// The arguments read at `c` are `all`, and leave `end`.
#[verifier::opaque]
pub open spec fn arguments_are(c: Cursor, all: Seq<ExpressionView>, end: Cursor) -> bool {
    arguments(c) == done(all, end)
}

/// The arguments read from `c`, after those in `acc`, make the list `all`,
/// and leave `end`.
#[verifier::opaque]
pub open spec fn more_arguments_are(
    c: Cursor,
    acc: Seq<ExpressionView>,
    all: Seq<ExpressionView>,
    end: Cursor,
) -> bool {
    more_arguments(c, acc) == done(all, end)
}

/// The parameters read at `c` are `all`, and leave `end`.
#[verifier::opaque]
pub open spec fn parameters_are(c: Cursor, all: Seq<ExpressionView>, end: Cursor) -> bool {
    parameters(c) == done(all, end)
}

/// The parameters read from `c`, after those in `acc`, make the list
/// `all`, and leave `end`.
#[verifier::opaque]
pub open spec fn more_parameters_are(
    c: Cursor,
    acc: Seq<ExpressionView>,
    all: Seq<ExpressionView>,
    end: Cursor,
) -> bool {
    more_parameters(c, acc) == done(all, end)
}

/// An identifier token is read as an identifier.
pub proof fn step_identifier(c: Cursor)
    requires
        c.token.kind == TokenKind::Ident,
    ensures
        prefix_is(c, ExpressionView::Identifier(c.token.text), c),
{
    reveal(prefix_is);
}

/// An integer literal that fits 32 bits is read as its value.
pub proof fn step_integer(c: Cursor)
    requires
        c.token.kind == TokenKind::IntLiteral,
        integer_of(c.token.text) is Some,
    ensures
        prefix_is(c, ExpressionView::IntegerLiteral(integer_of(c.token.text)->0), c),
{
    reveal(prefix_is);
}

/// The boolean literals `true` and `false` are read as their values.
pub proof fn step_boolean(c: Cursor)
    requires
        c.token.kind == TokenKind::BoolLiteral,
        c.token.text == "true"@ || c.token.text == "false"@,
    ensures
        prefix_is(c, ExpressionView::BooleanLiteral(c.token.text == "true"@), c),
{
    reveal(prefix_is);
}

/// An expression is its prefix form, and what climbing makes of it.
pub proof fn step_expression(
    c: Cursor,
    min: nat,
    first: ExpressionView,
    on_first: Cursor,
    e: ExpressionView,
    end: Cursor,
)
    requires
        prefix_is(c, first, on_first),
        on_first.not_before(c),
        climb_is(first, on_first, min, e, end),
    ensures
        expression_is(c, min, e, end),
{
    reveal(prefix_is);
    reveal(climb_is);
    reveal(expression_is);
}

/// Climbing ends where the next token does not bind more strongly than
/// `min`.
pub proof fn step_climb_ends(left: ExpressionView, c: Cursor, min: nat)
    requires
        !continues(c, min),
    ensures
        climb_is(left, c, min, left, c),
{
    reveal(climb_is);
}

/// Climbing takes a binary operator that binds more strongly than `min`,
/// reads its right operand at the operator's strength, and goes on.
pub proof fn step_climb_infix(
    left: ExpressionView,
    c: Cursor,
    min: nat,
    right: ExpressionView,
    on_right: Cursor,
    e: ExpressionView,
    end: Cursor,
)
    requires
        continues(c, min),
        c.rest[0].kind != TokenKind::Lparen,
        c.advance().rest.len() > 0,
        expression_is(c.advance().advance(), priority_of(c.rest[0].kind).rank(), right, on_right),
        on_right.not_before(c.advance()),
        climb_is(
            ExpressionView::InfixExpression {
                left: Box::new(left),
                operator: c.rest[0].text,
                right: Box::new(right),
            },
            on_right,
            min,
            e,
            end,
        ),
    ensures
        climb_is(left, c, min, e, end),
{
    reveal(climb_is);
    reveal(expression_is);
    let on = c.advance();
    let grown = ExpressionView::InfixExpression {
        left: Box::new(left),
        operator: c.rest[0].text,
        right: Box::new(right),
    };
    assert(crate::grammar::infix(left, on) == done(grown, on_right));
}

/// Climbing takes the opening parenthesis of a call, reads the arguments,
/// and goes on.
pub proof fn step_climb_call(
    left: ExpressionView,
    c: Cursor,
    min: nat,
    list: Seq<ExpressionView>,
    on_close: Cursor,
    e: ExpressionView,
    end: Cursor,
)
    requires
        c.peek_is(TokenKind::Lparen),
        min < Priority::Call.rank(),
        arguments_are(c.advance(), list, on_close),
        on_close.not_before(c.advance()),
        climb_is(
            ExpressionView::CallExpression { function: Box::new(left), arguments: list },
            on_close,
            min,
            e,
            end,
        ),
    ensures
        climb_is(left, c, min, e, end),
{
    reveal(climb_is);
    reveal(arguments_are);
    let on = c.advance();
    let grown = ExpressionView::CallExpression { function: Box::new(left), arguments: list };
    assert(crate::grammar::call(left, on) == done(grown, on_close));
}

/// A group is the expression between its parentheses.
pub proof fn step_grouped(c: Cursor, e: ExpressionView, inside: Cursor)
    requires
        c.token.kind == TokenKind::Lparen,
        c.rest.len() > 0,
        expression_is(c.advance(), Priority::Lowest.rank(), e, inside),
        inside.peek_is(TokenKind::Rparen),
    ensures
        prefix_is(c, e, inside.advance()),
{
    reveal(prefix_is);
    reveal(expression_is);
    assert(crate::grammar::grouped(c) == done(e, inside.advance()));
}

/// A prefix operator takes the expression that follows it at `Prefix`
/// strength.
pub proof fn step_prefix_operator(c: Cursor, right: ExpressionView, end: Cursor)
    requires
        c.token.kind == TokenKind::Bang || c.token.kind == TokenKind::Minus,
        c.rest.len() > 0,
        expression_is(c.advance(), Priority::Prefix.rank(), right, end),
    ensures
        prefix_is(
            c,
            ExpressionView::PrefixExpression { operator: c.token.text, right: Box::new(right) },
            end,
        ),
{
    reveal(prefix_is);
    reveal(expression_is);
    assert(crate::grammar::prefix_operator(c) == done(
        ExpressionView::PrefixExpression { operator: c.token.text, right: Box::new(right) },
        end,
    ));
}

/// A conditional: `if`, the condition between parentheses, and the
/// branches.
pub proof fn step_if(
    c: Cursor,
    condition: ExpressionView,
    on_condition: Cursor,
    e: ExpressionView,
    end: Cursor,
)
    requires
        c.token.kind == TokenKind::If,
        c.peek_is(TokenKind::Lparen),
        c.advance().rest.len() > 0,
        expression_is(c.advance().advance(), Priority::Lowest.rank(), condition, on_condition),
        on_condition.not_before(c),
        on_condition.peek_is(TokenKind::Rparen),
        on_condition.advance().peek_is(TokenKind::Lcurly),
        branches_are(condition, on_condition.advance().advance(), e, end),
    ensures
        prefix_is(c, e, end),
{
    reveal(prefix_is);
    reveal(expression_is);
    reveal(branches_are);
    assert(crate::grammar::if_expression(c) == done(e, end));
}

/// The branches of a conditional without `else`: a block that no `else`
/// follows.
pub proof fn step_one_branch(
    condition: ExpressionView,
    c: Cursor,
    consequence: StatementView,
    end: Cursor,
)
    requires
        block_is(c, consequence, end),
        !end.peek_is(TokenKind::Else),
    ensures
        branches_are(
            condition,
            c,
            ExpressionView::IfExpression {
                condition: Box::new(condition),
                consequence: Box::new(consequence),
                alternative: None,
            },
            end,
        ),
{
    reveal(block_is);
    reveal(branches_are);
}

/// The branches of a conditional with `else`: a block, `else`, and a
/// second block.
pub proof fn step_two_branches(
    condition: ExpressionView,
    c: Cursor,
    consequence: StatementView,
    on_first: Cursor,
    alternative: StatementView,
    end: Cursor,
)
    requires
        block_is(c, consequence, on_first),
        on_first.not_before(c),
        on_first.peek_is(TokenKind::Else),
        on_first.advance().peek_is(TokenKind::Lcurly),
        block_is(on_first.advance().advance(), alternative, end),
    ensures
        branches_are(
            condition,
            c,
            ExpressionView::IfExpression {
                condition: Box::new(condition),
                consequence: Box::new(consequence),
                alternative: Some(Box::new(alternative)),
            },
            end,
        ),
{
    reveal(block_is);
    reveal(branches_are);
    let e = ExpressionView::IfExpression {
        condition: Box::new(condition),
        consequence: Box::new(consequence),
        alternative: Some(Box::new(alternative)),
    };
    assert(crate::grammar::else_branch(condition, consequence, on_first.advance()) == done(e, end));
}

/// A function literal: `fn`, the parameters between parentheses, and a
/// block.
pub proof fn step_function(
    c: Cursor,
    names: Seq<ExpressionView>,
    on_close: Cursor,
    body: StatementView,
    end: Cursor,
)
    requires
        c.token.kind == TokenKind::Fn,
        c.peek_is(TokenKind::Lparen),
        parameters_are(c.advance(), names, on_close),
        on_close.peek_is(TokenKind::Lcurly),
        on_close.advance().not_before(c),
        block_is(on_close.advance(), body, end),
    ensures
        prefix_is(
            c,
            ExpressionView::FunctionLiteral { parameters: names, body: Box::new(body) },
            end,
        ),
{
    reveal(prefix_is);
    reveal(parameters_are);
    reveal(block_is);
    assert(crate::grammar::function_literal(c) == done(
        ExpressionView::FunctionLiteral { parameters: names, body: Box::new(body) },
        end,
    ));
}

/// A call without arguments: the closing parenthesis comes right away.
pub proof fn step_no_arguments(c: Cursor)
    requires
        c.peek_is(TokenKind::Rparen),
    ensures
        arguments_are(c, Seq::empty(), c.advance()),
{
    reveal(arguments_are);
}

/// The arguments of a call: a first expression, and the others.
pub proof fn step_arguments(
    c: Cursor,
    first: ExpressionView,
    on_first: Cursor,
    all: Seq<ExpressionView>,
    end: Cursor,
)
    requires
        c.rest.len() > 0,
        !c.peek_is(TokenKind::Rparen),
        expression_is(c.advance(), Priority::Lowest.rank(), first, on_first),
        on_first.not_before(c.advance()),
        more_arguments_are(on_first, seq![first], all, end),
    ensures
        arguments_are(c, all, end),
{
    reveal(arguments_are);
    reveal(expression_is);
    reveal(more_arguments_are);
}

/// The arguments end at the closing parenthesis.
pub proof fn step_arguments_end(c: Cursor, acc: Seq<ExpressionView>)
    requires
        c.peek_is(TokenKind::Rparen),
    ensures
        more_arguments_are(c, acc, acc, c.advance()),
{
    reveal(more_arguments_are);
}

/// After a comma comes one more argument.
pub proof fn step_next_argument(
    c: Cursor,
    acc: Seq<ExpressionView>,
    next: ExpressionView,
    on_next: Cursor,
    all: Seq<ExpressionView>,
    end: Cursor,
)
    requires
        c.peek_is(TokenKind::Comma),
        c.advance().rest.len() > 0,
        expression_is(c.advance().advance(), Priority::Lowest.rank(), next, on_next),
        on_next.not_before(c.advance().advance()),
        more_arguments_are(on_next, acc.push(next), all, end),
    ensures
        more_arguments_are(c, acc, all, end),
{
    reveal(more_arguments_are);
    reveal(expression_is);
}

/// A function literal without parameters: the closing parenthesis comes
/// right away.
pub proof fn step_no_parameters(c: Cursor)
    requires
        c.peek_is(TokenKind::Rparen),
    ensures
        parameters_are(c, Seq::empty(), c.advance()),
{
    reveal(parameters_are);
}

/// The parameters of a function literal: a first token, read as an
/// identifier, and the others.
pub proof fn step_parameters(c: Cursor, all: Seq<ExpressionView>, end: Cursor)
    requires
        c.rest.len() > 0,
        !c.peek_is(TokenKind::Rparen),
        more_parameters_are(
            c.advance(),
            seq![ExpressionView::Identifier(c.rest[0].text)],
            all,
            end,
        ),
    ensures
        parameters_are(c, all, end),
{
    reveal(parameters_are);
    reveal(more_parameters_are);
}

/// The parameters end at the closing parenthesis.
pub proof fn step_parameters_end(c: Cursor, acc: Seq<ExpressionView>)
    requires
        c.peek_is(TokenKind::Rparen),
    ensures
        more_parameters_are(c, acc, acc, c.advance()),
{
    reveal(more_parameters_are);
}

/// After a comma comes one more parameter.
pub proof fn step_next_parameter(
    c: Cursor,
    acc: Seq<ExpressionView>,
    all: Seq<ExpressionView>,
    end: Cursor,
)
    requires
        c.peek_is(TokenKind::Comma),
        c.advance().rest.len() > 0,
        more_parameters_are(
            c.advance().advance(),
            acc.push(ExpressionView::Identifier(c.advance().rest[0].text)),
            all,
            end,
        ),
    ensures
        more_parameters_are(c, acc, all, end),
{
    reveal(more_parameters_are);
}

/// A block is the statements between its braces.
pub proof fn step_block(c: Cursor, all: Seq<StatementView>, end: Cursor)
    requires
        c.rest.len() > 0,
        items_are(c.advance(), Seq::empty(), all, end),
    ensures
        block_is(c, StatementView::BlockStatement { statements: all }, end),
{
    reveal(block_is);
    reveal(items_are);
}

/// The statements of a block end at the closing brace.
pub proof fn step_items_end(c: Cursor, acc: Seq<StatementView>)
    requires
        c.token.kind == TokenKind::Rcurly,
    ensures
        items_are(c, acc, acc, c),
{
    reveal(items_are);
}

/// Before the closing brace comes one more statement.
pub proof fn step_next_item(
    c: Cursor,
    acc: Seq<StatementView>,
    next: StatementView,
    on_next: Cursor,
    all: Seq<StatementView>,
    end: Cursor,
)
    requires
        c.token.kind != TokenKind::Rcurly,
        statement_is(c, next, on_next),
        on_next.rest.len() > 0,
        on_next.not_before(c),
        items_are(on_next.advance(), acc.push(next), all, end),
    ensures
        items_are(c, acc, all, end),
{
    reveal(items_are);
    reveal(statement_is);
}

/// A `let` statement: `let`, an identifier, `=`, an expression, and a
/// terminator if one follows.
pub proof fn step_let(c: Cursor, value: ExpressionView, on_value: Cursor)
    requires
        c.token.kind == TokenKind::Let,
        c.peek_is(TokenKind::Ident),
        c.advance().peek_is(TokenKind::Assign),
        c.advance().advance().rest.len() > 0,
        expression_is(c.advance().advance().advance(), Priority::Lowest.rank(), value, on_value),
    ensures
        statement_is(
            c,
            StatementView::LetStatement {
                name: ExpressionView::Identifier(c.rest[0].text),
                value,
            },
            on_value.skip_terminator(),
        ),
{
    reveal(statement_is);
    reveal(expression_is);
    assert(crate::grammar::let_statement(c) == done(
        StatementView::LetStatement { name: ExpressionView::Identifier(c.rest[0].text), value },
        on_value.skip_terminator(),
    ));
}

/// A `return` statement: `return`, an expression, and a terminator if one
/// follows.
pub proof fn step_return(c: Cursor, value: ExpressionView, on_value: Cursor)
    requires
        c.token.kind == TokenKind::Return,
        c.rest.len() > 0,
        expression_is(c.advance(), Priority::Lowest.rank(), value, on_value),
    ensures
        statement_is(
            c,
            StatementView::ReturnStatement { value },
            on_value.skip_terminator(),
        ),
{
    reveal(statement_is);
    reveal(expression_is);
    assert(crate::grammar::return_statement(c) == done(
        StatementView::ReturnStatement { value },
        on_value.skip_terminator(),
    ));
}

/// An expression statement: an expression, and a terminator if one
/// follows.
pub proof fn step_expression_statement(c: Cursor, value: ExpressionView, on_value: Cursor)
    requires
        c.token.kind != TokenKind::Let,
        c.token.kind != TokenKind::Return,
        expression_is(c, Priority::Lowest.rank(), value, on_value),
    ensures
        statement_is(
            c,
            StatementView::ExpressionStatement { value },
            on_value.skip_terminator(),
        ),
{
    reveal(statement_is);
    reveal(expression_is);
    assert(crate::grammar::expression_statement(c) == done(
        StatementView::ExpressionStatement { value },
        on_value.skip_terminator(),
    ));
}

} // verus!
