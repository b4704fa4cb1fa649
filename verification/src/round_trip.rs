//! Reading back what was written: the tokens of the canonical rendering of
//! a tree parse to that same tree.
//!
//! [`spell_expression`] and [`spell_statement`] give the tokens of a
//! rendering, in order; that the rendering is their texts, white space
//! apart, is shown in [`crate::rendering`]. The laws of this module hold of
//! the trees that are [`faithful`].
use crate::ast::expression::ExpressionView;
use crate::ast::statement::StatementView;
use crate::grammar::{done, expression, program, statement, Cursor, ParseErrorView};
use crate::progress::{lemma_program_ends, lemma_program_goes_on};
use crate::precedence::{cursor_on, strength};
use crate::steps::{
    arguments_are, block_is, climb_is, expression_is, items_are, more_arguments_are,
    more_parameters_are, parameters_are, prefix_is, statement_is, step_arguments,
    step_arguments_end, step_block, step_boolean, step_climb_call, step_climb_ends,
    step_climb_infix, step_expression, step_expression_statement, step_function, step_grouped,
    step_identifier, step_if, step_integer, step_items_end, step_let, step_next_argument,
    step_next_item, step_next_parameter, step_no_arguments, step_no_parameters, step_one_branch,
    step_parameters, step_parameters_end, step_prefix_operator, step_return, step_two_branches,
};
use crate::text::{decimal, lemma_decimal_reads_back};
use crate::token::{is_infix_operator, priority_of, Priority, TokenKind, TokenView};
use vstd::prelude::*;

verus! {

/// The token of the given kind and text.
pub open spec fn token(kind: TokenKind, text: Seq<char>) -> TokenView {
    TokenView { kind, text }
}

/// The kind of the prefix operator written `operator`, if it is one.
pub open spec fn prefix_operator_kind(operator: Seq<char>) -> Option<TokenKind> {
    if operator == "!"@ {
        Some(TokenKind::Bang)
    } else if operator == "-"@ {
        Some(TokenKind::Minus)
    } else {
        None
    }
}

/// The kind of the binary operator written `operator`, if it is one.
pub open spec fn infix_operator_kind(operator: Seq<char>) -> Option<TokenKind> {
    if operator == "+"@ {
        Some(TokenKind::Plus)
    } else if operator == "-"@ {
        Some(TokenKind::Minus)
    } else if operator == "*"@ {
        Some(TokenKind::Asterisk)
    } else if operator == "/"@ {
        Some(TokenKind::Slash)
    } else if operator == "=="@ {
        Some(TokenKind::Equal)
    } else if operator == "!="@ {
        Some(TokenKind::NotEqual)
    } else if operator == "<"@ {
        Some(TokenKind::LessThan)
    } else if operator == ">"@ {
        Some(TokenKind::GreaterThan)
    } else {
        None
    }
}

/// The tokens of the rendering of an expression.
pub open spec fn spell_expression(e: ExpressionView) -> Seq<TokenView>
    decreases e, 0nat,
{
    match e {
        ExpressionView::Identifier(name) => seq![token(TokenKind::Ident, name)],
        ExpressionView::IntegerLiteral(value) => seq![token(TokenKind::IntLiteral, decimal(value))],
        ExpressionView::BooleanLiteral(value) => seq![
            token(
                TokenKind::BoolLiteral,
                if value {
                    "true"@
                } else {
                    "false"@
                },
            ),
        ],
        ExpressionView::PrefixExpression { operator, right } => seq![
            token(TokenKind::Lparen, "("@),
            token(prefix_operator_kind(operator)->0, operator),
        ] + spell_expression(*right) + seq![token(TokenKind::Rparen, ")"@)],
        ExpressionView::InfixExpression { left, operator, right } => seq![
            token(TokenKind::Lparen, "("@),
        ] + spell_expression(*left) + seq![token(infix_operator_kind(operator)->0, operator)]
            + spell_expression(*right) + seq![token(TokenKind::Rparen, ")"@)],
        ExpressionView::IfExpression { condition, consequence, alternative } => seq![
            token(TokenKind::If, "if"@),
            token(TokenKind::Lparen, "("@),
        ] + spell_expression(*condition) + seq![token(TokenKind::Rparen, ")"@)] + spell_statement(
            *consequence,
        ) + match alternative {
            Some(other) => seq![token(TokenKind::Else, "else"@)] + spell_statement(*other),
            None => Seq::empty(),
        },
        ExpressionView::FunctionLiteral { parameters, body } => seq![
            token(TokenKind::Fn, "fn"@),
            token(TokenKind::Lparen, "("@),
        ] + spell_list(parameters) + seq![token(TokenKind::Rparen, ")"@)] + spell_statement(*body),
        ExpressionView::CallExpression { function, arguments } => spell_expression(*function)
            + seq![token(TokenKind::Lparen, "("@)] + spell_list(arguments) + seq![
            token(TokenKind::Rparen, ")"@),
        ],
    }
}

/// The tokens of the rendering of a list of expressions: their tokens, with
/// a comma between one expression and the next.
pub open spec fn spell_list(items: Seq<ExpressionView>) -> Seq<TokenView>
    decreases items, 1nat,
{
    if items.len() == 0 {
        Seq::empty()
    } else {
        spell_expression(items[0]) + spell_more(items.drop_first())
    }
}

/// The tokens of the rendering of the expressions of a list after the
/// first: a comma and the tokens of the expression, for each.
pub open spec fn spell_more(items: Seq<ExpressionView>) -> Seq<TokenView>
    decreases items, 0nat,
{
    if items.len() == 0 {
        Seq::empty()
    } else {
        seq![token(TokenKind::Comma, ","@)] + spell_expression(items[0]) + spell_more(
            items.drop_first(),
        )
    }
}

/// The tokens of the rendering of a statement.
pub open spec fn spell_statement(s: StatementView) -> Seq<TokenView>
    decreases s, 0nat,
{
    match s {
        StatementView::LetStatement { name, value } => seq![token(TokenKind::Let, "let"@)]
            + spell_expression(name) + seq![token(TokenKind::Assign, "="@)] + spell_expression(
            value,
        ) + seq![token(TokenKind::SemiColon, ";"@)],
        StatementView::ReturnStatement { value } => seq![token(TokenKind::Return, "return"@)]
            + spell_expression(value) + seq![token(TokenKind::SemiColon, ";"@)],
        StatementView::ExpressionStatement { value } => spell_expression(value),
        StatementView::BlockStatement { statements } => seq![token(TokenKind::Lcurly, "{"@)]
            + spell_sequence(statements) + seq![token(TokenKind::Rcurly, "}"@)],
    }
}

/// The tokens of the rendering of the statements of a block, one statement
/// after the other.
pub open spec fn spell_sequence(items: Seq<StatementView>) -> Seq<TokenView>
    decreases items, 0nat,
{
    if items.len() == 0 {
        Seq::empty()
    } else {
        spell_statement(items[0]) + spell_sequence(items.drop_first())
    }
}

/// Whether an expression is one that its rendering can give back: its
/// operators are operators of the language, its integers are not negative,
/// the parameters of its function literals are identifiers, and its blocks
/// are faithful.
pub open spec fn faithful(e: ExpressionView) -> bool
    decreases e, 0nat,
{
    match e {
        ExpressionView::Identifier(_) => true,
        ExpressionView::IntegerLiteral(value) => 0 <= value <= i32::MAX,
        ExpressionView::BooleanLiteral(_) => true,
        ExpressionView::PrefixExpression { operator, right } => prefix_operator_kind(operator)
            is Some && faithful(*right),
        ExpressionView::InfixExpression { left, operator, right } => infix_operator_kind(operator)
            is Some && faithful(*left) && faithful(*right),
        ExpressionView::IfExpression { condition, consequence, alternative } => faithful(
            *condition,
        ) && faithful_block(*consequence) && match alternative {
            Some(other) => faithful_block(*other),
            None => true,
        },
        ExpressionView::FunctionLiteral { parameters, body } => all_identifiers(parameters)
            && faithful_block(*body),
        ExpressionView::CallExpression { function, arguments } => faithful(*function)
            && faithful_all(arguments),
    }
}

/// Whether every expression of a list is an identifier.
pub open spec fn all_identifiers(items: Seq<ExpressionView>) -> bool {
    forall|i: int| 0 <= i < items.len() ==> #[trigger] items[i] is Identifier
}

/// Whether every expression of a list is faithful.
pub open spec fn faithful_all(items: Seq<ExpressionView>) -> bool
    decreases items, 0nat,
{
    items.len() == 0 || (faithful(items[0]) && faithful_all(items.drop_first()))
}

/// Whether a statement is a block whose statements are faithful.
pub open spec fn faithful_block(s: StatementView) -> bool
    decreases s, 1nat,
{
    match s {
        StatementView::BlockStatement { statements } => faithful_sequence(statements),
        _ => false,
    }
}

/// Whether a statement of a block is one that its rendering can give back:
/// it is no block itself, the name of a `let` is an identifier, and its
/// expression is faithful.
pub open spec fn faithful_statement(s: StatementView) -> bool
    decreases s, 0nat,
{
    match s {
        StatementView::LetStatement { name, value } => name is Identifier && faithful(value),
        StatementView::ReturnStatement { value } => faithful(value),
        StatementView::ExpressionStatement { value } => faithful(value),
        StatementView::BlockStatement { .. } => false,
    }
}

/// Whether the statements of a block are faithful, and none of them runs
/// into the next: the rendering puts nothing between two statements, so
/// after an expression statement the next statement must not start with an
/// opening parenthesis, which would read as a call.
pub open spec fn faithful_sequence(items: Seq<StatementView>) -> bool
    decreases items, 0nat,
{
    items.len() == 0 || {
        &&& faithful_statement(items[0])
        &&& faithful_sequence(items.drop_first())
        &&& items[0] is ExpressionStatement && items.len() > 1 ==> spell_statement(items[1])[0].kind
            != TokenKind::Lparen
    }
}

/// The kinds of token that a rendered expression starts with.
pub open spec fn starts_expression(kind: TokenKind) -> bool {
    kind == TokenKind::Ident || kind == TokenKind::IntLiteral || kind == TokenKind::BoolLiteral
        || kind == TokenKind::Lparen || kind == TokenKind::If || kind == TokenKind::Fn
}

/// Whether the tokens `rest` leave an expression parsed at strength `min`
/// alone: the first of them, if there is one, binds no more strongly than
/// `min` and is no `else`.
pub open spec fn settled(rest: Seq<TokenView>, min: nat) -> bool {
    rest.len() > 0 ==> strength(rest[0]) <= min && rest[0].kind != TokenKind::Else
}

/// The kinds of token that a rendered statement of a block starts with.
pub open spec fn starts_statement(kind: TokenKind) -> bool {
    kind == TokenKind::Let || kind == TokenKind::Return || starts_expression(kind)
}

/// Whether the token `t` leaves an expression statement alone: it is no
/// operator, opens no call, and is neither a terminator nor an `else`.
pub open spec fn calm(t: TokenView) -> bool {
    strength(t) == 0 && t.kind != TokenKind::SemiColon && t.kind != TokenKind::Else
}

/// The cursor on a token followed by `rest` has that token and `rest`.
proof fn lemma_on(t: TokenView, rest: Seq<TokenView>)
    ensures
        cursor_on(seq![t] + rest) == (Cursor { token: t, rest }),
        (Cursor { token: t, rest }).rest.len() == rest.len(),
{
    assert((seq![t] + rest).skip(1) =~= rest);
}

/// The kinds that the operators of the language have.
proof fn lemma_operator_kinds(operator: Seq<char>)
    ensures
        prefix_operator_kind(operator) matches Some(kind) ==> kind == TokenKind::Bang || kind
            == TokenKind::Minus,
        infix_operator_kind(operator) matches Some(kind) ==> is_infix_operator(kind) && 1
            <= priority_of(kind).rank() <= 4,
{
}

/// The two boolean literals differ.
proof fn lemma_true_is_not_false()
    ensures
        "true"@ != "false"@,
{
    reveal_strlit("true");
    reveal_strlit("false");
    assert("true"@.len() != "false"@.len());
}

/// The rendering of a faithful expression starts with a token that starts
/// an expression.
proof fn lemma_expression_starts(e: ExpressionView)
    requires
        faithful(e),
    ensures
        spell_expression(e).len() > 0,
        starts_expression(spell_expression(e)[0].kind),
    decreases e,
{
    match e {
        ExpressionView::CallExpression { function, .. } => {
            lemma_expression_starts(*function);
        },
        _ => {},
    }
}

/// The rendering of a faithful statement starts with a token that starts a
/// statement.
proof fn lemma_statement_starts(s: StatementView)
    requires
        faithful_statement(s),
    ensures
        spell_statement(s).len() > 0,
        starts_statement(spell_statement(s)[0].kind),
{
    match s {
        StatementView::ExpressionStatement { value } => {
            lemma_expression_starts(value);
        },
        _ => {},
    }
}

/// The tokens of a faithful expression, read as an expression at strength
/// `min`, give that expression and leave the cursor on the last of them,
/// provided that the tokens `rest` after it are settled at `min`.
pub proof fn lemma_expression_round_trip(e: ExpressionView, rest: Seq<TokenView>, min: nat)
    requires
        faithful(e),
        min <= Priority::Prefix.rank(),
        settled(rest, min),
    ensures
        spell_expression(e).len() > 0,
        expression(cursor_on(spell_expression(e) + rest), min) == done(
            e,
            Cursor { token: spell_expression(e).last(), rest },
        ),
{
    let end = Cursor { token: spell_expression(e).last(), rest };
    lemma_expression_starts(e);
    step_climb_ends(e, end, min);
    lemma_expression_reads(e, rest, min, e, end);
    reveal(expression_is);
}

/// The tokens of a faithful statement of a block, read as a statement,
/// give that statement and leave the cursor on the last of them. After an
/// expression statement, the token that follows must be calm.
pub proof fn lemma_statement_round_trip(s: StatementView, following: Seq<TokenView>)
    requires
        faithful_statement(s),
        s is ExpressionStatement && following.len() > 0 ==> calm(following[0]),
    ensures
        spell_statement(s).len() > 0,
        statement(cursor_on(spell_statement(s) + following)) == done(
            s,
            Cursor { token: spell_statement(s).last(), rest: following },
        ),
{
    lemma_statement_starts(s);
    lemma_statement_reads(s, following);
    reveal(statement_is);
}

/// The tokens of a faithful statement, read as a whole program, give that
/// statement and nothing else, whatever token the parser starts on.
pub proof fn lemma_program_round_trip(s: StatementView, start: TokenView)
    requires
        faithful_statement(s),
    ensures
        program(Cursor { token: start, rest: spell_statement(s) }) == seq![
            Ok::<StatementView, ParseErrorView>(s),
        ],
{
    let c = Cursor { token: start, rest: spell_statement(s) };
    lemma_statement_round_trip(s, Seq::empty());
    assert(spell_statement(s) + Seq::<TokenView>::empty() =~= spell_statement(s));
    assert(c.advance() == cursor_on(spell_statement(s)));
    lemma_program_goes_on(c);
    let end = Cursor { token: spell_statement(s).last(), rest: Seq::<TokenView>::empty() };
    lemma_program_ends(end);
    assert(seq![Ok::<StatementView, ParseErrorView>(s)] + Seq::empty() =~= seq![
        Ok::<StatementView, ParseErrorView>(s),
    ]);
}

/// Reading the tokens of a faithful expression at strength `min` gives
/// whatever climbing from that expression gives, with the cursor on the
/// last of its tokens.
proof fn lemma_expression_reads(
    e: ExpressionView,
    rest: Seq<TokenView>,
    min: nat,
    whole: ExpressionView,
    end: Cursor,
)
    requires
        faithful(e),
        min <= Priority::Prefix.rank(),
        rest.len() > 0 ==> rest[0].kind != TokenKind::Else,
        climb_is(e, Cursor { token: spell_expression(e).last(), rest }, min, whole, end),
    ensures
        expression_is(cursor_on(spell_expression(e) + rest), min, whole, end),
    decreases e, 2nat,
{
    lemma_expression_starts(e);
    let c = cursor_on(spell_expression(e) + rest);
    let on_e = Cursor { token: spell_expression(e).last(), rest };
    match e {
        ExpressionView::Identifier(name) => {
            lemma_on(token(TokenKind::Ident, name), rest);
            step_identifier(c);
            step_expression(c, min, e, c, whole, end);
        },
        ExpressionView::IntegerLiteral(value) => {
            lemma_on(token(TokenKind::IntLiteral, decimal(value)), rest);
            lemma_decimal_reads_back(value);
            step_integer(c);
            step_expression(c, min, e, c, whole, end);
        },
        ExpressionView::BooleanLiteral(value) => {
            let text = if value {
                "true"@
            } else {
                "false"@
            };
            lemma_on(token(TokenKind::BoolLiteral, text), rest);
            lemma_true_is_not_false();
            step_boolean(c);
            step_expression(c, min, e, c, whole, end);
        },
        ExpressionView::PrefixExpression { .. } => {
            lemma_prefixed_reads(e, rest);
            step_expression(c, min, e, on_e, whole, end);
        },
        ExpressionView::InfixExpression { .. } => {
            lemma_infix_reads(e, rest);
            step_expression(c, min, e, on_e, whole, end);
        },
        ExpressionView::IfExpression { .. } => {
            lemma_if_reads(e, rest);
            step_expression(c, min, e, on_e, whole, end);
        },
        ExpressionView::FunctionLiteral { .. } => {
            lemma_function_reads(e, rest);
            step_expression(c, min, e, on_e, whole, end);
        },
        ExpressionView::CallExpression { function, arguments: items } => {
            let lparen = token(TokenKind::Lparen, "("@);
            let rparen = token(TokenKind::Rparen, ")"@);
            let inside = spell_list(items) + (seq![rparen] + rest);
            let after = seq![lparen] + inside;
            assert(spell_expression(e) + rest =~= spell_expression(*function) + after);
            let on_function = Cursor { token: spell_expression(*function).last(), rest: after };
            lemma_on(lparen, inside);
            assert(on_function.advance() == Cursor { token: lparen, rest: inside });
            lemma_arguments_read(e, lparen, rest);
            step_climb_call(*function, on_function, min, items, on_e, whole, end);
            lemma_expression_reads(*function, after, min, whole, end);
        },
    }
}

/// The tokens of a faithful prefix expression, read as a prefix form, give
/// that expression.
proof fn lemma_prefixed_reads(e: ExpressionView, rest: Seq<TokenView>)
    requires
        e is PrefixExpression,
        faithful(e),
    ensures
        prefix_is(
            cursor_on(spell_expression(e) + rest),
            e,
            Cursor { token: spell_expression(e).last(), rest },
        ),
    decreases e, 1nat,
{
    let operator = e->PrefixExpression_operator;
    let right = *e->PrefixExpression_right;
    let lparen = token(TokenKind::Lparen, "("@);
    let rparen = token(TokenKind::Rparen, ")"@);
    let sign = token(prefix_operator_kind(operator)->0, operator);
    lemma_operator_kinds(operator);
    lemma_expression_starts(right);
    let closing = seq![rparen] + rest;
    let operand = spell_expression(right) + closing;
    let body = seq![sign] + operand;
    assert(spell_expression(e) + rest =~= seq![lparen] + body);
    lemma_on(lparen, body);
    let c = Cursor { token: lparen, rest: body };
    lemma_on(sign, operand);
    let on_sign = Cursor { token: sign, rest: operand };
    let on_right = Cursor { token: spell_expression(right).last(), rest: closing };
    step_climb_ends(right, on_right, Priority::Prefix.rank());
    lemma_expression_reads(right, closing, Priority::Prefix.rank(), right, on_right);
    step_prefix_operator(on_sign, right, on_right);
    step_climb_ends(e, on_right, Priority::Lowest.rank());
    step_expression(on_sign, Priority::Lowest.rank(), e, on_right, e, on_right);
    step_grouped(c, e, on_right);
    lemma_on(rparen, rest);
}

/// The tokens of a faithful binary expression, read as a prefix form, give
/// that expression.
proof fn lemma_infix_reads(e: ExpressionView, rest: Seq<TokenView>)
    requires
        e is InfixExpression,
        faithful(e),
    ensures
        prefix_is(
            cursor_on(spell_expression(e) + rest),
            e,
            Cursor { token: spell_expression(e).last(), rest },
        ),
    decreases e, 1nat,
{
    let operator = e->InfixExpression_operator;
    let left = *e->InfixExpression_left;
    let right = *e->InfixExpression_right;
    let lparen = token(TokenKind::Lparen, "("@);
    let rparen = token(TokenKind::Rparen, ")"@);
    let sign = token(infix_operator_kind(operator)->0, operator);
    lemma_operator_kinds(operator);
    lemma_expression_starts(left);
    lemma_expression_starts(right);
    let level = strength(sign);
    let closing = seq![rparen] + rest;
    let second = spell_expression(right) + closing;
    let after_left = seq![sign] + second;
    let body = spell_expression(left) + after_left;
    assert(spell_expression(e) + rest =~= seq![lparen] + body);
    lemma_on(lparen, body);
    let c = Cursor { token: lparen, rest: body };
    let on_left = Cursor { token: spell_expression(left).last(), rest: after_left };
    lemma_on(sign, second);
    let on_right = Cursor { token: spell_expression(right).last(), rest: closing };
    step_climb_ends(right, on_right, level);
    lemma_expression_reads(right, closing, level, right, on_right);
    step_climb_ends(e, on_right, Priority::Lowest.rank());
    step_climb_infix(left, on_left, Priority::Lowest.rank(), right, on_right, e, on_right);
    lemma_expression_reads(left, after_left, Priority::Lowest.rank(), e, on_right);
    step_grouped(c, e, on_right);
    lemma_on(rparen, rest);
}

/// The tokens of the arguments of a faithful call, read after its opening
/// parenthesis, give those arguments.
proof fn lemma_arguments_read(e: ExpressionView, current: TokenView, rest: Seq<TokenView>)
    requires
        e is CallExpression,
        faithful(e),
    ensures
        arguments_are(
            Cursor {
                token: current,
                rest: spell_list(e->CallExpression_arguments) + (seq![
                    token(TokenKind::Rparen, ")"@),
                ] + rest),
            },
            e->CallExpression_arguments,
            Cursor { token: token(TokenKind::Rparen, ")"@), rest },
        ),
    decreases e, 1nat,
{
    let items = e->CallExpression_arguments;
    let rparen = token(TokenKind::Rparen, ")"@);
    let closing = seq![rparen] + rest;
    let c = Cursor { token: current, rest: spell_list(items) + closing };
    assert(faithful_all(items));
    if items.len() == 0 {
        assert(spell_list(items) + closing =~= closing);
        lemma_on(rparen, rest);
        assert(items =~= Seq::empty());
        step_no_arguments(c);
    } else {
        let first = items[0];
        let others = items.drop_first();
        let after = spell_more(others) + closing;
        assert(spell_list(items) + closing =~= spell_expression(first) + after);
        lemma_expression_starts(first);
        let on_first = Cursor { token: spell_expression(first).last(), rest: after };
        step_climb_ends(first, on_first, Priority::Lowest.rank());
        lemma_expression_reads(first, after, Priority::Lowest.rank(), first, on_first);
        lemma_more_arguments_read(seq![first], others, spell_expression(first).last(), rest);
        assert(seq![first] + others =~= items);
        step_arguments(c, first, on_first, items, Cursor { token: rparen, rest });
    }
}

/// The tokens of the arguments after the first ones, read after those,
/// give the whole list.
proof fn lemma_more_arguments_read(
    acc: Seq<ExpressionView>,
    items: Seq<ExpressionView>,
    current: TokenView,
    rest: Seq<TokenView>,
)
    requires
        faithful_all(items),
    ensures
        more_arguments_are(
            Cursor {
                token: current,
                rest: spell_more(items) + (seq![token(TokenKind::Rparen, ")"@)] + rest),
            },
            acc,
            acc + items,
            Cursor { token: token(TokenKind::Rparen, ")"@), rest },
        ),
    decreases items, 1nat,
{
    let rparen = token(TokenKind::Rparen, ")"@);
    let comma = token(TokenKind::Comma, ","@);
    let closing = seq![rparen] + rest;
    let c = Cursor { token: current, rest: spell_more(items) + closing };
    if items.len() == 0 {
        assert(spell_more(items) + closing =~= closing);
        lemma_on(rparen, rest);
        assert(acc + items =~= acc);
        step_arguments_end(c, acc);
    } else {
        let first = items[0];
        let others = items.drop_first();
        let after = spell_more(others) + closing;
        let from_first = spell_expression(first) + after;
        assert(spell_more(items) + closing =~= seq![comma] + from_first);
        lemma_on(comma, from_first);
        lemma_expression_starts(first);
        let on_first = Cursor { token: spell_expression(first).last(), rest: after };
        step_climb_ends(first, on_first, Priority::Lowest.rank());
        lemma_expression_reads(first, after, Priority::Lowest.rank(), first, on_first);
        lemma_more_arguments_read(acc.push(first), others, spell_expression(first).last(), rest);
        assert(acc.push(first) + others =~= acc + items);
        step_next_argument(c, acc, first, on_first, acc + items, Cursor { token: rparen, rest });
    }
}

/// The tokens of a block: its braces around the tokens of its statements.
proof fn lemma_block_shape(b: StatementView)
    requires
        faithful_block(b),
    ensures
        spell_statement(b) == seq![token(TokenKind::Lcurly, "{"@)] + spell_sequence(
            b->BlockStatement_statements,
        ) + seq![token(TokenKind::Rcurly, "}"@)],
        spell_statement(b).len() > 0,
        spell_statement(b).last() == token(TokenKind::Rcurly, "}"@),
{
}

/// The tokens of a conditional, one part after the other.
proof fn lemma_if_shape(e: ExpressionView, rest: Seq<TokenView>)
    requires
        e is IfExpression,
        faithful(e),
    ensures
        spell_expression(e).len() > 0,
        spell_expression(e).last() == token(TokenKind::Rcurly, "}"@),
        spell_expression(e) + rest == seq![token(TokenKind::If, "if"@)] + (seq![
            token(TokenKind::Lparen, "("@),
        ] + (spell_expression(*e->IfExpression_condition) + (seq![token(TokenKind::Rparen, ")"@)]
            + (seq![token(TokenKind::Lcurly, "{"@)] + (spell_sequence(
            e->IfExpression_consequence->BlockStatement_statements,
        ) + (seq![token(TokenKind::Rcurly, "}"@)] + match e->IfExpression_alternative {
            Some(second) => seq![token(TokenKind::Else, "else"@)] + (seq![
                token(TokenKind::Lcurly, "{"@),
            ] + (spell_sequence(second->BlockStatement_statements) + (seq![
                token(TokenKind::Rcurly, "}"@),
            ] + rest))),
            None => rest,
        })))))),
{
    let consequence = *e->IfExpression_consequence;
    lemma_block_shape(consequence);
    match e->IfExpression_alternative {
        Some(second) => {
            lemma_block_shape(*second);
            assert(spell_expression(e) + rest =~= seq![token(TokenKind::If, "if"@)] + (seq![
                token(TokenKind::Lparen, "("@),
            ] + (spell_expression(*e->IfExpression_condition) + (seq![
                token(TokenKind::Rparen, ")"@),
            ] + (seq![token(TokenKind::Lcurly, "{"@)] + (spell_sequence(
                consequence->BlockStatement_statements,
            ) + (seq![token(TokenKind::Rcurly, "}"@)] + (seq![token(TokenKind::Else, "else"@)]
                + (seq![token(TokenKind::Lcurly, "{"@)] + (spell_sequence(
                second->BlockStatement_statements,
            ) + (seq![token(TokenKind::Rcurly, "}"@)] + rest)))))))))));
        },
        None => {
            assert(spell_expression(e) + rest =~= seq![token(TokenKind::If, "if"@)] + (seq![
                token(TokenKind::Lparen, "("@),
            ] + (spell_expression(*e->IfExpression_condition) + (seq![
                token(TokenKind::Rparen, ")"@),
            ] + (seq![token(TokenKind::Lcurly, "{"@)] + (spell_sequence(
                consequence->BlockStatement_statements,
            ) + (seq![token(TokenKind::Rcurly, "}"@)] + rest)))))));
        },
    }
}

/// The tokens of a function literal, one part after the other.
proof fn lemma_function_shape(e: ExpressionView, rest: Seq<TokenView>)
    requires
        e is FunctionLiteral,
        faithful(e),
    ensures
        spell_expression(e).len() > 0,
        spell_expression(e).last() == token(TokenKind::Rcurly, "}"@),
        spell_expression(e) + rest == seq![token(TokenKind::Fn, "fn"@)] + (seq![
            token(TokenKind::Lparen, "("@),
        ] + (spell_list(e->FunctionLiteral_parameters) + (seq![token(TokenKind::Rparen, ")"@)]
            + (seq![token(TokenKind::Lcurly, "{"@)] + (spell_sequence(
            e->FunctionLiteral_body->BlockStatement_statements,
        ) + (seq![token(TokenKind::Rcurly, "}"@)] + rest)))))),
{
    let body = *e->FunctionLiteral_body;
    lemma_block_shape(body);
    assert(spell_expression(e) + rest =~= seq![token(TokenKind::Fn, "fn"@)] + (seq![
        token(TokenKind::Lparen, "("@),
    ] + (spell_list(e->FunctionLiteral_parameters) + (seq![token(TokenKind::Rparen, ")"@)] + (seq![
        token(TokenKind::Lcurly, "{"@),
    ] + (spell_sequence(body->BlockStatement_statements) + (seq![token(TokenKind::Rcurly, "}"@)]
        + rest)))))));
}

/// The tokens of a faithful conditional, read as a prefix form, give that
/// conditional, as long as no `else` follows it.
proof fn lemma_if_reads(e: ExpressionView, rest: Seq<TokenView>)
    requires
        e is IfExpression,
        faithful(e),
        rest.len() > 0 ==> rest[0].kind != TokenKind::Else,
    ensures
        prefix_is(
            cursor_on(spell_expression(e) + rest),
            e,
            Cursor { token: spell_expression(e).last(), rest },
        ),
    decreases e, 1nat,
{
    let condition = *e->IfExpression_condition;
    let consequence = *e->IfExpression_consequence;
    let alternative = e->IfExpression_alternative;
    let word = token(TokenKind::If, "if"@);
    let lparen = token(TokenKind::Lparen, "("@);
    let rparen = token(TokenKind::Rparen, ")"@);
    let lcurly = token(TokenKind::Lcurly, "{"@);
    let rcurly = token(TokenKind::Rcurly, "}"@);
    let other_word = token(TokenKind::Else, "else"@);
    let first = consequence->BlockStatement_statements;
    let after_first = match alternative {
        Some(second) => seq![other_word] + (seq![lcurly] + (spell_sequence(
            second->BlockStatement_statements,
        ) + (seq![rcurly] + rest))),
        None => rest,
    };
    let in_first = spell_sequence(first) + (seq![rcurly] + after_first);
    let after_condition = seq![rparen] + (seq![lcurly] + in_first);
    let from_condition = spell_expression(condition) + after_condition;
    lemma_if_shape(e, rest);
    lemma_expression_starts(condition);
    lemma_on(word, seq![lparen] + from_condition);
    let c = Cursor { token: word, rest: seq![lparen] + from_condition };
    lemma_on(lparen, from_condition);
    let on_condition = Cursor { token: spell_expression(condition).last(), rest: after_condition };
    step_climb_ends(condition, on_condition, Priority::Lowest.rank());
    lemma_expression_reads(
        condition,
        after_condition,
        Priority::Lowest.rank(),
        condition,
        on_condition,
    );
    lemma_on(rparen, seq![lcurly] + in_first);
    lemma_on(lcurly, in_first);
    let on_brace = Cursor { token: lcurly, rest: in_first };
    assert(on_condition.advance().advance() == on_brace);
    let on_first = Cursor { token: rcurly, rest: after_first };
    lemma_block_reads(consequence, lcurly, after_first);
    let end = Cursor { token: rcurly, rest };
    match alternative {
        Some(second) => {
            let in_second = spell_sequence(second->BlockStatement_statements) + (seq![rcurly]
                + rest);
            lemma_on(other_word, seq![lcurly] + in_second);
            lemma_on(lcurly, in_second);
            assert(on_first.advance().advance() == Cursor { token: lcurly, rest: in_second });
            lemma_block_reads(*second, lcurly, rest);
            step_two_branches(condition, on_brace, consequence, on_first, *second, end);
        },
        None => {
            step_one_branch(condition, on_brace, consequence, end);
        },
    }
    step_if(c, condition, on_condition, e, end);
}

/// The tokens of a faithful function literal, read as a prefix form, give
/// that function literal.
proof fn lemma_function_reads(e: ExpressionView, rest: Seq<TokenView>)
    requires
        e is FunctionLiteral,
        faithful(e),
    ensures
        prefix_is(
            cursor_on(spell_expression(e) + rest),
            e,
            Cursor { token: spell_expression(e).last(), rest },
        ),
    decreases e, 1nat,
{
    let names = e->FunctionLiteral_parameters;
    let body = *e->FunctionLiteral_body;
    let word = token(TokenKind::Fn, "fn"@);
    let lparen = token(TokenKind::Lparen, "("@);
    let rparen = token(TokenKind::Rparen, ")"@);
    let lcurly = token(TokenKind::Lcurly, "{"@);
    let rcurly = token(TokenKind::Rcurly, "}"@);
    let in_body = spell_sequence(body->BlockStatement_statements) + (seq![rcurly] + rest);
    let after_names = seq![lcurly] + in_body;
    let from_names = spell_list(names) + (seq![rparen] + after_names);
    lemma_function_shape(e, rest);
    lemma_on(word, seq![lparen] + from_names);
    let c = Cursor { token: word, rest: seq![lparen] + from_names };
    lemma_on(lparen, from_names);
    lemma_parameters_read(names, lparen, after_names);
    let on_close = Cursor { token: rparen, rest: after_names };
    lemma_on(lcurly, in_body);
    assert(on_close.advance() == Cursor { token: lcurly, rest: in_body });
    lemma_block_reads(body, lcurly, rest);
    step_function(c, names, on_close, body, Cursor { token: rcurly, rest });
}

/// The tokens of a list of identifiers, read as parameters after the
/// opening parenthesis, give those identifiers.
proof fn lemma_parameters_read(names: Seq<ExpressionView>, current: TokenView, rest: Seq<TokenView>)
    requires
        all_identifiers(names),
    ensures
        parameters_are(
            Cursor {
                token: current,
                rest: spell_list(names) + (seq![token(TokenKind::Rparen, ")"@)] + rest),
            },
            names,
            Cursor { token: token(TokenKind::Rparen, ")"@), rest },
        ),
{
    let rparen = token(TokenKind::Rparen, ")"@);
    let closing = seq![rparen] + rest;
    let c = Cursor { token: current, rest: spell_list(names) + closing };
    if names.len() == 0 {
        assert(spell_list(names) + closing =~= closing);
        lemma_on(rparen, rest);
        assert(names =~= Seq::empty());
        step_no_parameters(c);
    } else {
        let first = names[0];
        let others = names.drop_first();
        let name = token(TokenKind::Ident, first->Identifier_0);
        let after = spell_more(others) + closing;
        assert(first is Identifier);
        assert(spell_expression(first) =~= seq![name]);
        assert(spell_list(names) + closing =~= seq![name] + after);
        lemma_on(name, after);
        assert forall|i: int| 0 <= i < others.len() implies #[trigger] others[i] is Identifier by {
            assert(others[i] == names[i + 1]);
        }
        lemma_more_parameters_read(seq![first], others, name, rest);
        assert(seq![first] + others =~= names);
        step_parameters(c, names, Cursor { token: rparen, rest });
    }
}

/// The tokens of the parameters after the first ones, read after those,
/// give the whole list.
proof fn lemma_more_parameters_read(
    acc: Seq<ExpressionView>,
    names: Seq<ExpressionView>,
    current: TokenView,
    rest: Seq<TokenView>,
)
    requires
        all_identifiers(names),
    ensures
        more_parameters_are(
            Cursor {
                token: current,
                rest: spell_more(names) + (seq![token(TokenKind::Rparen, ")"@)] + rest),
            },
            acc,
            acc + names,
            Cursor { token: token(TokenKind::Rparen, ")"@), rest },
        ),
    decreases names.len(),
{
    let rparen = token(TokenKind::Rparen, ")"@);
    let comma = token(TokenKind::Comma, ","@);
    let closing = seq![rparen] + rest;
    let c = Cursor { token: current, rest: spell_more(names) + closing };
    if names.len() == 0 {
        assert(spell_more(names) + closing =~= closing);
        lemma_on(rparen, rest);
        assert(acc + names =~= acc);
        step_parameters_end(c, acc);
    } else {
        let first = names[0];
        let others = names.drop_first();
        let name = token(TokenKind::Ident, first->Identifier_0);
        let after = spell_more(others) + closing;
        assert(first is Identifier);
        assert(spell_expression(first) =~= seq![name]);
        assert(spell_more(names) + closing =~= seq![comma] + (seq![name] + after));
        lemma_on(comma, seq![name] + after);
        lemma_on(name, after);
        assert forall|i: int| 0 <= i < others.len() implies #[trigger] others[i] is Identifier by {
            assert(others[i] == names[i + 1]);
        }
        lemma_more_parameters_read(acc.push(first), others, name, rest);
        assert(acc.push(first) + others =~= acc + names);
        step_next_parameter(c, acc, acc + names, Cursor { token: rparen, rest });
    }
}

/// The tokens of a faithful block, read from its opening brace, give that
/// block.
proof fn lemma_block_reads(b: StatementView, current: TokenView, rest: Seq<TokenView>)
    requires
        faithful_block(b),
    ensures
        block_is(
            Cursor {
                token: current,
                rest: spell_sequence(b->BlockStatement_statements) + (seq![
                    token(TokenKind::Rcurly, "}"@),
                ] + rest),
            },
            b,
            Cursor { token: token(TokenKind::Rcurly, "}"@), rest },
        ),
    decreases b, 1nat,
{
    let items = b->BlockStatement_statements;
    let rcurly = token(TokenKind::Rcurly, "}"@);
    let inside = spell_sequence(items) + (seq![rcurly] + rest);
    let c = Cursor { token: current, rest: inside };
    lemma_items_read(Seq::empty(), items, rest);
    assert(Seq::<StatementView>::empty() + items =~= items);
    step_block(c, items, Cursor { token: rcurly, rest });
}

/// The tokens of the statements of a faithful block after the first ones,
/// read after those, give the whole block.
proof fn lemma_items_read(acc: Seq<StatementView>, items: Seq<StatementView>, rest: Seq<TokenView>)
    requires
        faithful_sequence(items),
    ensures
        (spell_sequence(items) + (seq![token(TokenKind::Rcurly, "}"@)] + rest)).len() > 0,
        items_are(
            cursor_on(spell_sequence(items) + (seq![token(TokenKind::Rcurly, "}"@)] + rest)),
            acc,
            acc + items,
            Cursor { token: token(TokenKind::Rcurly, "}"@), rest },
        ),
    decreases items, 0nat,
{
    let rcurly = token(TokenKind::Rcurly, "}"@);
    let closing = seq![rcurly] + rest;
    let end = Cursor { token: rcurly, rest };
    if items.len() == 0 {
        assert(spell_sequence(items) + closing =~= closing);
        lemma_on(rcurly, rest);
        assert(acc + items =~= acc);
        step_items_end(end, acc);
    } else {
        let first = items[0];
        let others = items.drop_first();
        let following = spell_sequence(others) + closing;
        assert(spell_sequence(items) + closing =~= spell_statement(first) + following);
        assert(faithful_sequence(others));
        lemma_items_read(acc.push(first), others, rest);
        lemma_statement_starts(first);
        if others.len() > 0 {
            lemma_statement_starts(others[0]);
            assert(following[0] == spell_statement(others[0])[0]);
            assert(others[0] == items[1]);
        } else {
            assert(following =~= closing);
        }
        lemma_statement_reads(first, following);
        let c = cursor_on(spell_statement(first) + following);
        let on_first = Cursor { token: spell_statement(first).last(), rest: following };
        assert(on_first.advance() == cursor_on(following));
        assert(acc.push(first) + others =~= acc + items);
        step_next_item(c, acc, first, on_first, acc + items, end);
    }
}

/// The tokens of a faithful statement of a block, read as a statement, give
/// that statement.
proof fn lemma_statement_reads(s: StatementView, following: Seq<TokenView>)
    requires
        faithful_statement(s),
        s is ExpressionStatement && following.len() > 0 ==> calm(following[0]),
    ensures
        statement_is(
            cursor_on(spell_statement(s) + following),
            s,
            Cursor { token: spell_statement(s).last(), rest: following },
        ),
    decreases s, 1nat,
{
    let semicolon = token(TokenKind::SemiColon, ";"@);
    let closing = seq![semicolon] + following;
    let end = Cursor { token: semicolon, rest: following };
    match s {
        StatementView::LetStatement { name, value } => {
            let word = token(TokenKind::Let, "let"@);
            let target = token(TokenKind::Ident, name->Identifier_0);
            let assign = token(TokenKind::Assign, "="@);
            let from_value = spell_expression(value) + closing;
            assert(spell_expression(name) =~= seq![target]);
            assert(spell_statement(s) + following =~= seq![word] + (seq![target] + (seq![assign]
                + from_value)));
            lemma_expression_starts(value);
            lemma_on(word, seq![target] + (seq![assign] + from_value));
            let c = Cursor { token: word, rest: seq![target] + (seq![assign] + from_value) };
            lemma_on(target, seq![assign] + from_value);
            lemma_on(assign, from_value);
            assert(c.advance().advance().advance() == cursor_on(from_value));
            let on_value = Cursor { token: spell_expression(value).last(), rest: closing };
            step_climb_ends(value, on_value, Priority::Lowest.rank());
            lemma_expression_reads(value, closing, Priority::Lowest.rank(), value, on_value);
            lemma_on(semicolon, following);
            assert(on_value.skip_terminator() == end);
            step_let(c, value, on_value);
        },
        StatementView::ReturnStatement { value } => {
            let word = token(TokenKind::Return, "return"@);
            let from_value = spell_expression(value) + closing;
            assert(spell_statement(s) + following =~= seq![word] + from_value);
            lemma_expression_starts(value);
            lemma_on(word, from_value);
            let c = Cursor { token: word, rest: from_value };
            let on_value = Cursor { token: spell_expression(value).last(), rest: closing };
            step_climb_ends(value, on_value, Priority::Lowest.rank());
            lemma_expression_reads(value, closing, Priority::Lowest.rank(), value, on_value);
            lemma_on(semicolon, following);
            assert(on_value.skip_terminator() == end);
            step_return(c, value, on_value);
        },
        StatementView::ExpressionStatement { value } => {
            lemma_expression_starts(value);
            let c = cursor_on(spell_expression(value) + following);
            let on_value = Cursor { token: spell_expression(value).last(), rest: following };
            step_climb_ends(value, on_value, Priority::Lowest.rank());
            lemma_expression_reads(value, following, Priority::Lowest.rank(), value, on_value);
            assert(on_value.skip_terminator() == on_value);
            step_expression_statement(c, value, on_value);
        },
        StatementView::BlockStatement { .. } => {},
    }
}

} // verus!
