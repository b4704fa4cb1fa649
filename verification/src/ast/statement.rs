//! Statements: the nodes of the syntax tree that bind, return or group.
use crate::ast::expression::{expression_view, render_expression, Expression, ExpressionView};
use vstd::prelude::*;
use vstd::string::StringExecFns;

verus! {

/// A statement. A block owns its statements, in source order.
#[derive(Debug)]
pub enum Statement {
    LetStatement { name: Expression, value: Expression },
    ReturnStatement { value: Expression },
    ExpressionStatement { value: Expression },
    BlockStatement { statements: Vec<Statement> },
}

/// A statement as a mathematical tree.
pub enum StatementView {
    LetStatement { name: ExpressionView, value: ExpressionView },
    ReturnStatement { value: ExpressionView },
    ExpressionStatement { value: ExpressionView },
    BlockStatement { statements: Seq<StatementView> },
}

/// The trees of a list of statements, in order.
pub open spec fn statement_views(items: Seq<Statement>) -> Seq<StatementView>
    decreases items, 0nat,
{
    Seq::new(
        items.len(),
        |i: int|
            if 0 <= i < items.len() {
                statement_view(&items[i])
            } else {
                StatementView::BlockStatement { statements: Seq::empty() }
            },
    )
}

/// The tree of a statement.
pub open spec fn statement_view(s: &Statement) -> StatementView
    decreases s, 0nat,
{
    match s {
        Statement::LetStatement { name, value } => StatementView::LetStatement {
            name: expression_view(name),
            value: expression_view(value),
        },
        Statement::ReturnStatement { value } => StatementView::ReturnStatement {
            value: expression_view(value),
        },
        Statement::ExpressionStatement { value } => StatementView::ExpressionStatement {
            value: expression_view(value),
        },
        Statement::BlockStatement { statements } => StatementView::BlockStatement {
            statements: statement_views(statements@),
        },
    }
}

impl View for Statement {
    type V = StatementView;

    open spec fn view(&self) -> StatementView {
        statement_view(self)
    }
}

/// The canonical texts of a list of statements, one after the other.
pub open spec fn render_sequence(items: Seq<StatementView>) -> Seq<char>
    decreases items, 0nat,
{
    if items.len() == 0 {
        Seq::empty()
    } else {
        render_sequence(items.drop_last()) + render_statement(items.last())
    }
}

/// The canonical text of a statement.
pub open spec fn render_statement(s: StatementView) -> Seq<char>
    decreases s, 0nat,
{
    match s {
        StatementView::LetStatement { name, value } => "let "@ + render_expression(name) + " = "@
            + render_expression(value) + ";"@,
        StatementView::ReturnStatement { value } => "return "@ + render_expression(value) + ";"@,
        StatementView::ExpressionStatement { value } => render_expression(value),
        StatementView::BlockStatement { statements } => "{\n"@ + render_sequence(statements)
            + "\n}"@,
    }
}

impl Statement {
    /// Renders the statement in its canonical form: `let <id> = <expr>;`,
    /// `return <expr>;`, the bare expression for an expression statement,
    /// and for a block its statements between `{` and `}`, each brace on a
    /// line of its own.
    pub fn to_string(&self) -> (s: String)
        ensures
            s@ == render_statement(self@),
        decreases self, 1nat,
    {
        match self {
            Statement::LetStatement { name, value } => {
                let mut s = String::from_str("let ");
                let target = name.to_string();
                s.append(target.as_str());
                s.append(" = ");
                let bound = value.to_string();
                s.append(bound.as_str());
                s.append(";");
                s
            },
            Statement::ReturnStatement { value } => {
                let mut s = String::from_str("return ");
                let returned = value.to_string();
                s.append(returned.as_str());
                s.append(";");
                s
            },
            Statement::ExpressionStatement { value } => value.to_string(),
            Statement::BlockStatement { statements } => {
                let mut s = String::from_str("{\n");
                let ghost views = statement_views(statements@);
                let ghost start = s@;
                let mut i: usize = 0;
                while i < statements.len()
                    invariant
                        i <= statements.len(),
                        self is BlockStatement,
                        self->statements == *statements,
                        views == statement_views(statements@),
                        s@ == start + render_sequence(views.take(i as int)),
                    decreases statements.len() - i,
                {
                    let text = statements[i].to_string();
                    s.append(text.as_str());
                    proof {
                        let next = views.take(i + 1);
                        assert(next.drop_last() =~= views.take(i as int));
                        assert(next.last() == statement_view(&statements@[i as int]));
                    }
                    i += 1;
                }
                proof {
                    assert(views.take(statements.len() as int) =~= views);
                }
                s.append("\n}");
                s
            },
        }
    }
}

} // verus!
