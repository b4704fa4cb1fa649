//! The grammar only ever moves forward: no rule hands back a cursor with
//! more tokens to come than the cursor it was given.
use crate::ast::expression::ExpressionView;
use crate::ast::statement::StatementView;
use crate::grammar::{
    arguments, block, block_items, call, climb, continues, else_branch, expect, expression,
    expression_statement, function_literal, grouped, if_branches, if_expression, infix,
    lemma_more_parameters_advance, let_statement, more_arguments, outcomes_from, parameters,
    prefix, prefix_operator, program, return_statement, statement, Cursor, ParseErrorView,
};
use crate::token::{priority_of, Priority, TokenKind};
use vstd::prelude::*;

verus! {

/// A statement leaves the cursor at or after the place where it started.
pub proof fn lemma_statement_never_rewinds(c: Cursor)
    ensures
        statement(c).cursor.not_before(c),
    decreases c.rest.len(), 9nat,
{
    match c.token.kind {
        TokenKind::Let => lemma_let_statement_never_rewinds(c),
        TokenKind::Return => lemma_return_statement_never_rewinds(c),
        _ => lemma_expression_statement_never_rewinds(c),
    }
}

/// A `let` statement never rewinds.
proof fn lemma_let_statement_never_rewinds(c: Cursor)
    ensures
        let_statement(c).cursor.not_before(c),
    decreases c.rest.len(), 8nat,
{
    let name = expect(c, TokenKind::Ident);
    let assign = expect(name.cursor, TokenKind::Assign);
    if name.outcome is Ok && assign.outcome is Ok && assign.cursor.rest.len() > 0 {
        lemma_expression_never_rewinds(assign.cursor.advance(), Priority::Lowest.rank());
    }
}

/// A `return` statement never rewinds.
proof fn lemma_return_statement_never_rewinds(c: Cursor)
    ensures
        return_statement(c).cursor.not_before(c),
    decreases c.rest.len(), 8nat,
{
    if c.rest.len() > 0 {
        lemma_expression_never_rewinds(c.advance(), Priority::Lowest.rank());
    }
}

/// An expression statement never rewinds.
proof fn lemma_expression_statement_never_rewinds(c: Cursor)
    ensures
        expression_statement(c).cursor.not_before(c),
    decreases c.rest.len(), 8nat,
{
    lemma_expression_never_rewinds(c, Priority::Lowest.rank());
}

/// A block leaves the cursor at or after the place where it started.
pub proof fn lemma_block_never_rewinds(c: Cursor)
    ensures
        block(c).cursor.not_before(c),
    decreases c.rest.len(), 4nat,
{
    if c.rest.len() > 0 {
        lemma_block_items_never_rewinds(c.advance(), Seq::empty());
    }
}

/// The statements of a block never rewind.
proof fn lemma_block_items_never_rewinds(c: Cursor, acc: Seq<StatementView>)
    ensures
        block_items(c, acc).cursor.not_before(c),
    decreases c.rest.len(), 10nat,
{
    if c.token.kind != TokenKind::Rcurly {
        lemma_statement_never_rewinds(c);
        let item = statement(c);
        if item.outcome is Ok && item.cursor.rest.len() > 0 {
            lemma_block_items_never_rewinds(item.cursor.advance(), acc.push(item.outcome->Ok_0));
        }
    }
}

/// An expression leaves the cursor at or after the place where it
/// started, whatever the binding strength it is parsed at.
pub proof fn lemma_expression_never_rewinds(c: Cursor, min: nat)
    ensures
        expression(c, min).cursor.not_before(c),
    decreases c.rest.len(), 7nat,
{
    lemma_prefix_never_rewinds(c);
    let left = prefix(c);
    if left.outcome is Ok {
        lemma_climb_never_rewinds(left.outcome->Ok_0, left.cursor, min);
    }
}

/// A prefix form leaves the cursor at or after the place where it started.
pub proof fn lemma_prefix_never_rewinds(c: Cursor)
    ensures
        prefix(c).cursor.not_before(c),
    decreases c.rest.len(), 6nat,
{
    match c.token.kind {
        TokenKind::Bang | TokenKind::Minus => lemma_prefix_operator_never_rewinds(c),
        TokenKind::Lparen => lemma_grouped_never_rewinds(c),
        TokenKind::If => lemma_if_expression_never_rewinds(c),
        TokenKind::Fn => lemma_function_literal_never_rewinds(c),
        _ => {},
    }
}

/// A prefix operator and its operand never rewind.
proof fn lemma_prefix_operator_never_rewinds(c: Cursor)
    ensures
        prefix_operator(c).cursor.not_before(c),
    decreases c.rest.len(), 5nat,
{
    if c.rest.len() > 0 {
        lemma_expression_never_rewinds(c.advance(), Priority::Prefix.rank());
    }
}

/// A group never rewinds.
proof fn lemma_grouped_never_rewinds(c: Cursor)
    ensures
        grouped(c).cursor.not_before(c),
    decreases c.rest.len(), 5nat,
{
    if c.rest.len() > 0 {
        lemma_expression_never_rewinds(c.advance(), Priority::Lowest.rank());
    }
}

/// Climbing leaves the cursor at or after the place where it started.
pub proof fn lemma_climb_never_rewinds(left: ExpressionView, c: Cursor, min: nat)
    ensures
        climb(left, c, min).cursor.not_before(c),
    decreases c.rest.len(), 6nat,
{
    if continues(c, min) {
        let on = c.advance();
        if on.token.kind == TokenKind::Lparen {
            lemma_call_never_rewinds(left, on);
        } else {
            lemma_infix_never_rewinds(left, on);
        }
        let step = if on.token.kind == TokenKind::Lparen {
            call(left, on)
        } else {
            infix(left, on)
        };
        if step.outcome is Ok {
            lemma_climb_never_rewinds(step.outcome->Ok_0, step.cursor, min);
        }
    }
}

/// A binary operator and its right operand never rewind.
proof fn lemma_infix_never_rewinds(left: ExpressionView, c: Cursor)
    ensures
        infix(left, c).cursor.not_before(c),
    decreases c.rest.len(), 5nat,
{
    if c.rest.len() > 0 {
        lemma_expression_never_rewinds(c.advance(), priority_of(c.token.kind).rank());
    }
}

/// A call never rewinds.
proof fn lemma_call_never_rewinds(function: ExpressionView, c: Cursor)
    ensures
        call(function, c).cursor.not_before(c),
    decreases c.rest.len(), 5nat,
{
    lemma_arguments_never_rewinds(c);
}

/// The arguments of a call never rewind.
proof fn lemma_arguments_never_rewinds(c: Cursor)
    ensures
        arguments(c).cursor.not_before(c),
    decreases c.rest.len(), 4nat,
{
    if c.rest.len() > 0 && c.advance().token.kind != TokenKind::Rparen {
        lemma_expression_never_rewinds(c.advance(), Priority::Lowest.rank());
        let first = expression(c.advance(), Priority::Lowest.rank());
        if first.outcome is Ok {
            lemma_more_arguments_never_rewinds(first.cursor, seq![first.outcome->Ok_0]);
        }
    }
}

/// The arguments after the first never rewind.
proof fn lemma_more_arguments_never_rewinds(c: Cursor, acc: Seq<ExpressionView>)
    ensures
        more_arguments(c, acc).cursor.not_before(c),
    decreases c.rest.len(), 3nat,
{
    if c.peek_is(TokenKind::Comma) {
        let comma = c.advance();
        if comma.rest.len() > 0 {
            lemma_expression_never_rewinds(comma.advance(), Priority::Lowest.rank());
            let next = expression(comma.advance(), Priority::Lowest.rank());
            if next.outcome is Ok {
                lemma_more_arguments_never_rewinds(next.cursor, acc.push(next.outcome->Ok_0));
            }
        }
    }
}

/// A function literal never rewinds.
proof fn lemma_function_literal_never_rewinds(c: Cursor)
    ensures
        function_literal(c).cursor.not_before(c),
    decreases c.rest.len(), 5nat,
{
    let open = expect(c, TokenKind::Lparen);
    let list = parameters(open.cursor);
    let brace = expect(list.cursor, TokenKind::Lcurly);
    if open.outcome is Ok {
        if open.cursor.rest.len() > 0 {
            lemma_more_parameters_advance(
                open.cursor.advance(),
                seq![ExpressionView::Identifier(open.cursor.advance().token.text)],
            );
        }
        if list.outcome is Ok && brace.outcome is Ok {
            lemma_block_never_rewinds(brace.cursor);
        }
    }
}

/// A conditional never rewinds.
proof fn lemma_if_expression_never_rewinds(c: Cursor)
    ensures
        if_expression(c).cursor.not_before(c),
    decreases c.rest.len(), 5nat,
{
    let open = expect(c, TokenKind::Lparen);
    if open.outcome is Ok && open.cursor.rest.len() > 0 {
        lemma_expression_never_rewinds(open.cursor.advance(), Priority::Lowest.rank());
        let condition = expression(open.cursor.advance(), Priority::Lowest.rank());
        let close = expect(condition.cursor, TokenKind::Rparen);
        let brace = expect(close.cursor, TokenKind::Lcurly);
        if condition.outcome is Ok && close.outcome is Ok && brace.outcome is Ok {
            lemma_if_branches_never_rewinds(condition.outcome->Ok_0, brace.cursor);
        }
    }
}

/// The branches of a conditional never rewind.
proof fn lemma_if_branches_never_rewinds(condition: ExpressionView, c: Cursor)
    ensures
        if_branches(condition, c).cursor.not_before(c),
    decreases c.rest.len(), 5nat,
{
    lemma_block_never_rewinds(c);
    let consequence = block(c);
    if consequence.outcome is Ok && consequence.cursor.peek_is(TokenKind::Else) {
        lemma_else_branch_never_rewinds(
            condition,
            consequence.outcome->Ok_0,
            consequence.cursor.advance(),
        );
    }
}

/// The second branch of a conditional never rewinds.
proof fn lemma_else_branch_never_rewinds(
    condition: ExpressionView,
    consequence: StatementView,
    c: Cursor,
)
    ensures
        else_branch(condition, consequence, c).cursor.not_before(c),
    decreases c.rest.len(), 5nat,
{
    let brace = expect(c, TokenKind::Lcurly);
    if brace.outcome is Ok {
        lemma_block_never_rewinds(brace.cursor);
    }
}

/// The outcomes already known come first, and the program from the cursor
/// follows them.
proof fn lemma_outcomes_append(c: Cursor, acc: Seq<Result<StatementView, ParseErrorView>>)
    ensures
        outcomes_from(c, acc) == acc + program(c),
    decreases c.rest.len(),
{
    if c.rest.len() == 0 {
        assert(acc + program(c) =~= acc);
    } else {
        let on = c.advance();
        lemma_statement_never_rewinds(on);
        let outcome = statement(on).outcome;
        let next = statement(on).cursor;
        lemma_outcomes_append(next, acc.push(outcome));
        lemma_outcomes_append(next, seq![outcome]);
        assert(Seq::<Result<StatementView, ParseErrorView>>::empty().push(outcome) =~= seq![
            outcome,
        ]);
        assert(acc.push(outcome) + program(next) =~= acc + (seq![outcome] + program(next)));
    }
}

/// A program is the outcome of its first statement, whether it parsed or
/// failed, followed by the program that starts where that statement left
/// the cursor. So a malformed statement costs its own outcome and never
/// those of the statements after it.
pub proof fn lemma_program_goes_on(c: Cursor)
    requires
        c.rest.len() > 0,
    ensures
        statement(c.advance()).cursor.not_before(c.advance()),
        program(c) == seq![statement(c.advance()).outcome] + program(
            statement(c.advance()).cursor,
        ),
{
    let on = c.advance();
    lemma_statement_never_rewinds(on);
    let outcome = statement(on).outcome;
    assert(Seq::<Result<StatementView, ParseErrorView>>::empty().push(outcome) =~= seq![outcome]);
    lemma_outcomes_append(statement(on).cursor, seq![outcome]);
}

/// At the end of the token stream the program is empty.
pub proof fn lemma_program_ends(c: Cursor)
    requires
        c.rest.len() == 0,
    ensures
        program(c) == Seq::<Result<StatementView, ParseErrorView>>::empty(),
{
}

} // verus!
