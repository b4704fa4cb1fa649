//! How operators group: by binding strength first, to the left among equal
//! strengths, with prefix operators tighter than every binary operator and
//! parentheses overriding both.
//!
//! A [`Phrase`] is a piece of source as it is written, parentheses
//! included. The law of this module says that the parser reads the tokens
//! of a well-formed phrase as the tree of that phrase.
use crate::ast::expression::ExpressionView;
use crate::ast::statement::StatementView;
use crate::grammar::{climb, done, expression, prefix, program, Cursor, ParseErrorView};
use crate::progress::{lemma_program_ends, lemma_program_goes_on};
use crate::steps::{expression_is, statement_is, step_expression_statement};
use crate::text::integer_of;
use crate::token::{is_infix_operator, priority_of, Priority, TokenKind, TokenView};
use vstd::prelude::*;

verus! {

/// An operator expression as written.
pub enum Phrase {
    /// An identifier or a literal: a single token.
    Atom(TokenView),
    /// A prefix operator in front of its operand.
    Prefixed { operator: TokenView, operand: Box<Phrase> },
    /// A phrase between parentheses.
    Group(Box<Phrase>),
    /// A binary operator between its operands.
    Binary { left: Box<Phrase>, operator: TokenView, right: Box<Phrase> },
}

/// The binding strength of an operator token, as a number.
pub open spec fn strength(operator: TokenView) -> nat {
    priority_of(operator.kind).rank()
}

/// Whether a token is an identifier, a boolean literal, or an integer
/// literal that fits 32 bits.
pub open spec fn is_atom(t: TokenView) -> bool {
    ||| t.kind == TokenKind::Ident
    ||| t.kind == TokenKind::BoolLiteral && (t.text == "true"@ || t.text == "false"@)
    ||| t.kind == TokenKind::IntLiteral && integer_of(t.text) is Some
}

/// The expression that an atom stands for.
pub open spec fn atom_tree(t: TokenView) -> ExpressionView {
    if t.kind == TokenKind::Ident {
        ExpressionView::Identifier(t.text)
    } else if t.kind == TokenKind::BoolLiteral {
        ExpressionView::BooleanLiteral(t.text == "true"@)
    } else {
        ExpressionView::IntegerLiteral(integer_of(t.text)->0)
    }
}

/// The opening parenthesis.
pub open spec fn lparen() -> TokenView {
    TokenView { kind: TokenKind::Lparen, text: "("@ }
}

/// The closing parenthesis.
pub open spec fn rparen() -> TokenView {
    TokenView { kind: TokenKind::Rparen, text: ")"@ }
}

impl Phrase {
    /// The number of nodes of the phrase.
    pub open spec fn size(self) -> nat
        decreases self,
    {
        match self {
            Phrase::Atom(_) => 1,
            Phrase::Prefixed { operand, .. } => 1 + operand.size(),
            Phrase::Group(inner) => 1 + inner.size(),
            Phrase::Binary { left, right, .. } => 1 + left.size() + right.size(),
        }
    }

    /// The tokens of the phrase, in the order in which they are written.
    pub open spec fn tokens(self) -> Seq<TokenView>
        decreases self,
    {
        match self {
            Phrase::Atom(t) => seq![t],
            Phrase::Prefixed { operator, operand } => seq![operator] + operand.tokens(),
            Phrase::Group(inner) => seq![lparen()] + inner.tokens() + seq![rparen()],
            Phrase::Binary { left, operator, right } => left.tokens() + seq![operator]
                + right.tokens(),
        }
    }

    /// The expression that the phrase stands for. Parentheses leave no
    /// trace in it.
    pub open spec fn tree(self) -> ExpressionView
        decreases self,
    {
        match self {
            Phrase::Atom(t) => atom_tree(t),
            Phrase::Prefixed { operator, operand } => ExpressionView::PrefixExpression {
                operator: operator.text,
                right: Box::new(operand.tree()),
            },
            Phrase::Group(inner) => inner.tree(),
            Phrase::Binary { left, operator, right } => ExpressionView::InfixExpression {
                left: Box::new(left.tree()),
                operator: operator.text,
                right: Box::new(right.tree()),
            },
        }
    }

    /// Whether the phrase is written so that it means what it says: atoms
    /// are atoms, operators are operators, the operand of a prefix operator
    /// is no bare binary phrase, a bare binary phrase on the left of a
    /// binary operator binds at least as strongly as the operator, and one
    /// on its right binds more strongly.
    pub open spec fn well_formed(self) -> bool
        decreases self,
    {
        match self {
            Phrase::Atom(t) => is_atom(t),
            Phrase::Prefixed { operator, operand } => {
                &&& operator.kind == TokenKind::Bang || operator.kind == TokenKind::Minus
                &&& !(*operand is Binary)
                &&& operand.well_formed()
            },
            Phrase::Group(inner) => inner.well_formed(),
            Phrase::Binary { left, operator, right } => {
                &&& is_infix_operator(operator.kind)
                &&& left.well_formed()
                &&& right.well_formed()
                &&& *left is Binary ==> strength(left->Binary_operator) >= strength(operator)
                &&& *right is Binary ==> strength(right->Binary_operator) > strength(operator)
            },
        }
    }

    /// Whether the phrase, if it is a bare binary phrase, binds more
    /// strongly than `min`.
    pub open spec fn binds_above(self, min: nat) -> bool {
        self is Binary ==> min < strength(self->Binary_operator)
    }

    /// The first operand of the phrase: the phrase itself, unless it is a
    /// bare binary phrase.
    pub open spec fn head(self) -> Phrase
        decreases self,
    {
        match self {
            Phrase::Binary { left, .. } => left.head(),
            _ => self,
        }
    }

    /// The tokens of the phrase after its first operand.
    pub open spec fn after_head(self) -> Seq<TokenView>
        decreases self,
    {
        match self {
            Phrase::Binary { left, operator, right } => left.after_head() + seq![operator]
                + right.tokens(),
            _ => Seq::empty(),
        }
    }

    /// The tree of the phrase with `first` in the place of its first
    /// operand.
    pub open spec fn graft(self, first: ExpressionView) -> ExpressionView
        decreases self,
    {
        match self {
            Phrase::Binary { left, operator, right } => ExpressionView::InfixExpression {
                left: Box::new(left.graft(first)),
                operator: operator.text,
                right: Box::new(right.tree()),
            },
            _ => first,
        }
    }
}

/// The cursor on the first of the tokens `ts`, with the others to come.
pub open spec fn cursor_on(ts: Seq<TokenView>) -> Cursor
    recommends
        ts.len() > 0,
{
    Cursor { token: ts[0], rest: ts.skip(1) }
}

/// Whether the tokens `tail` leave an expression parsed at strength `min`
/// alone: the first of them, if there is one, binds no more strongly than
/// `min` and opens no call.
pub open spec fn quiet(tail: Seq<TokenView>, min: nat) -> bool {
    tail.len() > 0 ==> strength(tail[0]) <= min && tail[0].kind != TokenKind::Lparen
}

/// What the head and the tail of a well-formed phrase are to the phrase.
proof fn lemma_shape(p: Phrase)
    requires
        p.well_formed(),
    ensures
        p.tokens().len() > 0,
        p.tokens() == p.head().tokens() + p.after_head(),
        p.tree() == p.graft(p.head().tree()),
        !(p.head() is Binary),
        p.head().well_formed(),
        p.head().size() <= p.size(),
        p is Binary ==> p.after_head().len() > 0 && is_infix_operator(p.after_head()[0].kind)
            && p.tokens().last() == (p.head().tokens() + p.after_head()).last(),
        p.binds_above(Priority::Lowest.rank()),
        !(p is Binary) ==> p.head() == p && p.after_head().len() == 0,
    decreases p,
{
    match p {
        Phrase::Binary { left, operator, right } => {
            lemma_shape(*left);
            lemma_shape(*right);
            assert(p.tokens() =~= p.head().tokens() + p.after_head());
            if *left is Binary {
                assert(p.after_head()[0] == left.after_head()[0]);
            } else {
                assert(p.after_head()[0] == operator);
            }
        },
        Phrase::Prefixed { operator, operand } => {
            lemma_shape(*operand);
            assert(p.tokens() =~= p.head().tokens() + p.after_head());
        },
        Phrase::Group(inner) => {
            lemma_shape(*inner);
            assert(p.tokens() =~= p.head().tokens() + p.after_head());
        },
        Phrase::Atom(_) => {
            assert(p.tokens() =~= p.head().tokens() + p.after_head());
        },
    }
}

/// The tokens of a well-formed phrase, read as an expression at strength
/// `min`, give the tree of the phrase and leave the cursor on the last of
/// them, provided that the phrase binds more strongly than `min` and that
/// the tokens `tail` after it are quiet at `min`.
///
/// So binary operators group by binding strength and, at equal strength,
/// to the left; a prefix operator takes the operand right after it and no
/// more; and a group is read as a whole, whatever stands around it.
pub proof fn lemma_phrase_parses(p: Phrase, tail: Seq<TokenView>, min: nat)
    requires
        p.well_formed(),
        p.binds_above(min),
        quiet(tail, min),
    ensures
        expression(cursor_on(p.tokens() + tail), min) == done(
            p.tree(),
            Cursor { token: p.tokens().last(), rest: tail },
        ),
    decreases p.size(), 2nat,
{
    lemma_shape(p);
    let h = p.head();
    let after = p.after_head() + tail;
    let c = cursor_on(p.tokens() + tail);
    assert(p.tokens() + tail =~= h.tokens() + after);
    lemma_shape(h);
    lemma_operand_parses(h, after);
    let on_head = Cursor { token: h.tokens().last(), rest: after };
    assert(prefix(c) == done(h.tree(), on_head));
    lemma_spine_climbs(p, h.tree(), h.tokens().last(), tail, min);
    let end = Cursor { token: p.tokens().last(), rest: tail };
    assert(climb(p.tree(), end, min) == done(p.tree(), end));
}

/// The tokens of a well-formed phrase that is no bare binary phrase, read
/// as a prefix form, give the tree of the phrase, whatever follows, as long
/// as no call opens right after it.
proof fn lemma_operand_parses(h: Phrase, tail: Seq<TokenView>)
    requires
        h.well_formed(),
        !(h is Binary),
        tail.len() > 0 ==> tail[0].kind != TokenKind::Lparen,
    ensures
        h.tokens().len() > 0,
        prefix(cursor_on(h.tokens() + tail)) == done(
            h.tree(),
            Cursor { token: h.tokens().last(), rest: tail },
        ),
    decreases h.size(), 1nat,
{
    match h {
        Phrase::Atom(t) => {
            assert(cursor_on(h.tokens() + tail).rest =~= tail);
        },
        Phrase::Prefixed { operator, operand } => {
            lemma_prefixed_parses(operator, *operand, tail);
        },
        Phrase::Group(inner) => {
            lemma_group_parses(*inner, tail);
        },
        Phrase::Binary { .. } => {},
    }
}

/// A prefix operator and its operand, read as a prefix form, give the
/// prefix expression.
proof fn lemma_prefixed_parses(operator: TokenView, operand: Phrase, tail: Seq<TokenView>)
    requires
        operator.kind == TokenKind::Bang || operator.kind == TokenKind::Minus,
        operand.well_formed(),
        !(operand is Binary),
        tail.len() > 0 ==> tail[0].kind != TokenKind::Lparen,
    ensures
        prefix(cursor_on(seq![operator] + operand.tokens() + tail)) == done(
            ExpressionView::PrefixExpression {
                operator: operator.text,
                right: Box::new(operand.tree()),
            },
            Cursor { token: operand.tokens().last(), rest: tail },
        ),
    decreases 1 + operand.size(), 0nat,
{
    lemma_shape(operand);
    let c = cursor_on(seq![operator] + operand.tokens() + tail);
    assert(c.token == operator);
    assert(c.rest =~= operand.tokens() + tail);
    assert(c.advance() == cursor_on(operand.tokens() + tail));
    lemma_phrase_parses(operand, tail, Priority::Prefix.rank());
    let end = Cursor { token: operand.tokens().last(), rest: tail };
    assert(expression(c.advance(), Priority::Prefix.rank()) == done(operand.tree(), end));
    assert(crate::grammar::prefix_operator(c) == done(
        ExpressionView::PrefixExpression {
            operator: operator.text,
            right: Box::new(operand.tree()),
        },
        end,
    ));
}

/// A group, read as a prefix form, gives the tree of what it holds.
proof fn lemma_group_parses(inner: Phrase, tail: Seq<TokenView>)
    requires
        inner.well_formed(),
    ensures
        prefix(cursor_on(seq![lparen()] + inner.tokens() + seq![rparen()] + tail)) == done(
            inner.tree(),
            Cursor { token: rparen(), rest: tail },
        ),
    decreases 1 + inner.size(), 0nat,
{
    lemma_shape(inner);
    let c = cursor_on(seq![lparen()] + inner.tokens() + seq![rparen()] + tail);
    let closing = seq![rparen()] + tail;
    assert(c.token == lparen());
    assert(c.rest =~= inner.tokens() + closing);
    assert(c.advance() == cursor_on(inner.tokens() + closing));
    lemma_phrase_parses(inner, closing, Priority::Lowest.rank());
    let inside = Cursor { token: inner.tokens().last(), rest: closing };
    assert(expression(c.advance(), Priority::Lowest.rank()) == done(inner.tree(), inside));
    assert(inside.peek_is(TokenKind::Rparen));
    assert(closing.skip(1) =~= tail);
    assert(inside.advance() == Cursor { token: rparen(), rest: tail });
    assert(crate::grammar::grouped(c) == done(
        inner.tree(),
        Cursor { token: rparen(), rest: tail },
    ));
}

/// Climbing from the first operand of a well-formed phrase goes through the
/// whole phrase: with `first` parsed and the cursor on `current`, the
/// tokens of the phrase after its first operand are consumed, and climbing
/// goes on with the phrase's tree, grafted on `first`, as the left operand.
proof fn lemma_spine_climbs(
    p: Phrase,
    first: ExpressionView,
    current: TokenView,
    tail: Seq<TokenView>,
    min: nat,
)
    requires
        p.well_formed(),
        p.binds_above(min),
        p is Binary ==> quiet(tail, strength(p->Binary_operator)),
    ensures
        climb(first, Cursor { token: current, rest: p.after_head() + tail }, min) == climb(
            p.graft(first),
            Cursor {
                token: if p is Binary {
                    p.tokens().last()
                } else {
                    current
                },
                rest: tail,
            },
            min,
        ),
    decreases p.size(), 1nat,
{
    match p {
        Phrase::Binary { left, operator, right } => {
            lemma_shape(*left);
            lemma_shape(*right);
            let level = strength(operator);
            let after_left = seq![operator] + right.tokens() + tail;
            assert(p.after_head() + tail =~= left.after_head() + after_left);
            lemma_spine_climbs(*left, first, current, after_left, min);
            let on_left = Cursor {
                token: if *left is Binary {
                    left.tokens().last()
                } else {
                    current
                },
                rest: after_left,
            };
            let grown = left.graft(first);
            // the operator continues the climb
            let on_operator = on_left.advance();
            assert(on_operator.token == operator);
            assert(on_operator.rest =~= right.tokens() + tail);
            assert(on_operator.advance() =~= cursor_on(right.tokens() + tail));
            lemma_phrase_parses(*right, tail, level);
            let end = Cursor { token: right.tokens().last(), rest: tail };
            assert(expression(on_operator.advance(), level) == done(right.tree(), end));
            assert(crate::grammar::infix(grown, on_operator) == done(p.graft(first), end));
            assert(p.tokens().last() == right.tokens().last());
            assert(climb(grown, on_left, min) == climb(p.graft(first), end, min));
        },
        _ => {
            assert(p.after_head() + tail =~= tail);
        },
    }
}

/// The tokens of a well-formed phrase, read as a whole program, give one
/// expression statement, which holds the tree of the phrase.
pub proof fn lemma_phrase_program(p: Phrase, start: TokenView)
    requires
        p.well_formed(),
    ensures
        program(Cursor { token: start, rest: p.tokens() }) == seq![
            Ok::<StatementView, ParseErrorView>(
                StatementView::ExpressionStatement { value: p.tree() },
            ),
        ],
{
    let none = Seq::<TokenView>::empty();
    let c = Cursor { token: start, rest: p.tokens() };
    let end = Cursor { token: p.tokens().last(), rest: none };
    let s = StatementView::ExpressionStatement { value: p.tree() };
    lemma_shape(p);
    lemma_shape(p.head());
    lemma_phrase_parses(p, none, Priority::Lowest.rank());
    assert(p.tokens() + none =~= p.tokens());
    assert(c.advance() == cursor_on(p.tokens()));
    assert(c.advance().token == p.head().tokens()[0]);
    assert(expression_is(c.advance(), Priority::Lowest.rank(), p.tree(), end)) by {
        reveal(expression_is);
    }
    step_expression_statement(c.advance(), p.tree(), end);
    assert(crate::grammar::statement(c.advance()) == done(s, end)) by {
        reveal(statement_is);
    }
    lemma_program_goes_on(c);
    lemma_program_ends(end);
    assert(seq![Ok::<StatementView, ParseErrorView>(s)] + Seq::empty() =~= seq![
        Ok::<StatementView, ParseErrorView>(s),
    ]);
}

/// The tree of a binary operator between two expressions.
pub open spec fn binary(
    left: ExpressionView,
    operator: TokenView,
    right: ExpressionView,
) -> ExpressionView {
    ExpressionView::InfixExpression {
        left: Box::new(left),
        operator: operator.text,
        right: Box::new(right),
    }
}

/// In `a first b second c`, where the second operator binds more strongly
/// than the first, the second operator takes `b` and `c`, and the first
/// takes `a` and that group.
pub proof fn lemma_stronger_operator_binds_first(
    a: TokenView,
    first: TokenView,
    b: TokenView,
    second: TokenView,
    c: TokenView,
    tail: Seq<TokenView>,
)
    requires
        is_atom(a),
        is_atom(b),
        is_atom(c),
        is_infix_operator(first.kind),
        is_infix_operator(second.kind),
        strength(first) < strength(second),
        quiet(tail, Priority::Lowest.rank()),
    ensures
        expression(cursor_on(seq![a, first, b, second, c] + tail), Priority::Lowest.rank()) == done(
            binary(atom_tree(a), first, binary(atom_tree(b), second, atom_tree(c))),
            Cursor { token: c, rest: tail },
        ),
{
    reveal_with_fuel(Phrase::well_formed, 4);
    reveal_with_fuel(Phrase::tokens, 4);
    reveal_with_fuel(Phrase::tree, 4);
    let inner = Phrase::Binary {
        left: Box::new(Phrase::Atom(b)),
        operator: second,
        right: Box::new(Phrase::Atom(c)),
    };
    let p = Phrase::Binary {
        left: Box::new(Phrase::Atom(a)),
        operator: first,
        right: Box::new(inner),
    };
    assert(inner.well_formed());
    assert(inner.tokens() =~= seq![b, second, c]);
    assert(p.tokens() =~= seq![a, first, b, second, c]);
    assert(inner.tree() == binary(atom_tree(b), second, atom_tree(c)));
    lemma_phrase_parses(p, tail, Priority::Lowest.rank());
}

/// In `a first b second c`, where the second operator binds no more
/// strongly than the first, the first operator takes `a` and `b`, and the
/// second takes that group and `c`: operators of equal strength group to
/// the left.
pub proof fn lemma_operators_group_to_the_left(
    a: TokenView,
    first: TokenView,
    b: TokenView,
    second: TokenView,
    c: TokenView,
    tail: Seq<TokenView>,
)
    requires
        is_atom(a),
        is_atom(b),
        is_atom(c),
        is_infix_operator(first.kind),
        is_infix_operator(second.kind),
        strength(first) >= strength(second),
        quiet(tail, Priority::Lowest.rank()),
    ensures
        expression(cursor_on(seq![a, first, b, second, c] + tail), Priority::Lowest.rank()) == done(
            binary(binary(atom_tree(a), first, atom_tree(b)), second, atom_tree(c)),
            Cursor { token: c, rest: tail },
        ),
{
    reveal_with_fuel(Phrase::well_formed, 4);
    reveal_with_fuel(Phrase::tokens, 4);
    reveal_with_fuel(Phrase::tree, 4);
    let inner = Phrase::Binary {
        left: Box::new(Phrase::Atom(a)),
        operator: first,
        right: Box::new(Phrase::Atom(b)),
    };
    let p = Phrase::Binary {
        left: Box::new(inner),
        operator: second,
        right: Box::new(Phrase::Atom(c)),
    };
    assert(inner.well_formed());
    assert(inner.tokens() =~= seq![a, first, b]);
    assert(p.tokens() =~= seq![a, first, b, second, c]);
    assert(inner.tree() == binary(atom_tree(a), first, atom_tree(b)));
    lemma_phrase_parses(p, tail, Priority::Lowest.rank());
}

/// In `( a first b ) second c`, the group is the left operand of the
/// second operator, however strongly the two operators bind.
pub proof fn lemma_parentheses_override_on_the_left(
    a: TokenView,
    first: TokenView,
    b: TokenView,
    second: TokenView,
    c: TokenView,
    tail: Seq<TokenView>,
)
    requires
        is_atom(a),
        is_atom(b),
        is_atom(c),
        is_infix_operator(first.kind),
        is_infix_operator(second.kind),
        quiet(tail, Priority::Lowest.rank()),
    ensures
        expression(
            cursor_on(seq![lparen(), a, first, b, rparen(), second, c] + tail),
            Priority::Lowest.rank(),
        ) == done(
            binary(binary(atom_tree(a), first, atom_tree(b)), second, atom_tree(c)),
            Cursor { token: c, rest: tail },
        ),
{
    reveal_with_fuel(Phrase::well_formed, 4);
    reveal_with_fuel(Phrase::tokens, 4);
    reveal_with_fuel(Phrase::tree, 4);
    let inner = Phrase::Binary {
        left: Box::new(Phrase::Atom(a)),
        operator: first,
        right: Box::new(Phrase::Atom(b)),
    };
    let group = Phrase::Group(Box::new(inner));
    let p = Phrase::Binary {
        left: Box::new(group),
        operator: second,
        right: Box::new(Phrase::Atom(c)),
    };
    assert(inner.well_formed());
    assert(group.well_formed());
    assert(inner.tokens() =~= seq![a, first, b]);
    assert(group.tokens() =~= seq![lparen(), a, first, b, rparen()]);
    assert(p.tokens() =~= seq![lparen(), a, first, b, rparen(), second, c]);
    assert(inner.tree() == binary(atom_tree(a), first, atom_tree(b)));
    assert(group.tree() == inner.tree());
    lemma_phrase_parses(p, tail, Priority::Lowest.rank());
}

/// In `a first ( b second c )`, the group is the right operand of the
/// first operator, however strongly the two operators bind.
pub proof fn lemma_parentheses_override_on_the_right(
    a: TokenView,
    first: TokenView,
    b: TokenView,
    second: TokenView,
    c: TokenView,
    tail: Seq<TokenView>,
)
    requires
        is_atom(a),
        is_atom(b),
        is_atom(c),
        is_infix_operator(first.kind),
        is_infix_operator(second.kind),
        quiet(tail, Priority::Lowest.rank()),
    ensures
        expression(
            cursor_on(seq![a, first, lparen(), b, second, c, rparen()] + tail),
            Priority::Lowest.rank(),
        ) == done(
            binary(atom_tree(a), first, binary(atom_tree(b), second, atom_tree(c))),
            Cursor { token: rparen(), rest: tail },
        ),
{
    reveal_with_fuel(Phrase::well_formed, 4);
    reveal_with_fuel(Phrase::tokens, 4);
    reveal_with_fuel(Phrase::tree, 4);
    let inner = Phrase::Binary {
        left: Box::new(Phrase::Atom(b)),
        operator: second,
        right: Box::new(Phrase::Atom(c)),
    };
    let group = Phrase::Group(Box::new(inner));
    let p = Phrase::Binary {
        left: Box::new(Phrase::Atom(a)),
        operator: first,
        right: Box::new(group),
    };
    assert(inner.well_formed());
    assert(group.well_formed());
    assert(inner.tokens() =~= seq![b, second, c]);
    assert(group.tokens() =~= seq![lparen(), b, second, c, rparen()]);
    assert(p.tokens() =~= seq![a, first, lparen(), b, second, c, rparen()]);
    assert(inner.tree() == binary(atom_tree(b), second, atom_tree(c)));
    assert(group.tree() == inner.tree());
    lemma_phrase_parses(p, tail, Priority::Lowest.rank());
}

/// In `sign a operator b`, the prefix operator takes `a` alone, and the
/// binary operator takes that and `b`, whichever binary operator it is.
pub proof fn lemma_prefix_binds_tightest(
    sign: TokenView,
    a: TokenView,
    operator: TokenView,
    b: TokenView,
    tail: Seq<TokenView>,
)
    requires
        sign.kind == TokenKind::Bang || sign.kind == TokenKind::Minus,
        is_atom(a),
        is_atom(b),
        is_infix_operator(operator.kind),
        quiet(tail, Priority::Lowest.rank()),
    ensures
        expression(cursor_on(seq![sign, a, operator, b] + tail), Priority::Lowest.rank()) == done(
            binary(
                ExpressionView::PrefixExpression {
                    operator: sign.text,
                    right: Box::new(atom_tree(a)),
                },
                operator,
                atom_tree(b),
            ),
            Cursor { token: b, rest: tail },
        ),
{
    reveal_with_fuel(Phrase::well_formed, 4);
    reveal_with_fuel(Phrase::tokens, 4);
    reveal_with_fuel(Phrase::tree, 4);
    let signed = Phrase::Prefixed { operator: sign, operand: Box::new(Phrase::Atom(a)) };
    let p = Phrase::Binary {
        left: Box::new(signed),
        operator,
        right: Box::new(Phrase::Atom(b)),
    };
    assert(signed.well_formed());
    assert(signed.tokens() =~= seq![sign, a]);
    assert(p.tokens() =~= seq![sign, a, operator, b]);
    assert(signed.tree() == ExpressionView::PrefixExpression {
        operator: sign.text,
        right: Box::new(atom_tree(a)),
    });
    lemma_phrase_parses(p, tail, Priority::Lowest.rank());
}

} // verus!
