//! Expressions: the nodes of the syntax tree that produce a value.
use crate::ast::statement::{render_statement, statement_view, Statement, StatementView};
use crate::text::{decimal, decimal_text};
use vstd::prelude::*;
use vstd::string::StringExecFns;

verus! {

/// An expression. Every node owns its children.
#[derive(Debug)]
pub enum Expression {
    Identifier(String),
    IntegerLiteral(i32),
    BooleanLiteral(bool),
    FunctionLiteral { parameters: Vec<Box<Expression>>, body: Box<Statement> },
    PrefixExpression { operator: String, right: Box<Expression> },
    InfixExpression { left: Box<Expression>, operator: String, right: Box<Expression> },
    IfExpression {
        condition: Box<Expression>,
        consequence: Box<Statement>,
        alternative: Option<Box<Statement>>,
    },
    CallExpression { function: Box<Expression>, arguments: Vec<Box<Expression>> },
}

/// An expression as a mathematical tree: texts are sequences of characters,
/// lists are sequences, and integers are unbounded.
pub enum ExpressionView {
    Identifier(Seq<char>),
    IntegerLiteral(int),
    BooleanLiteral(bool),
    FunctionLiteral { parameters: Seq<ExpressionView>, body: Box<StatementView> },
    PrefixExpression { operator: Seq<char>, right: Box<ExpressionView> },
    InfixExpression { left: Box<ExpressionView>, operator: Seq<char>, right: Box<ExpressionView> },
    IfExpression {
        condition: Box<ExpressionView>,
        consequence: Box<StatementView>,
        alternative: Option<Box<StatementView>>,
    },
    CallExpression { function: Box<ExpressionView>, arguments: Seq<ExpressionView> },
}

/// The trees of a list of boxed expressions, in order.
pub open spec fn expression_views(items: Seq<Box<Expression>>) -> Seq<ExpressionView>
    decreases items, 0nat,
{
    Seq::new(
        items.len(),
        |i: int|
            if 0 <= i < items.len() {
                expression_view(&*items[i])
            } else {
                ExpressionView::BooleanLiteral(false)
            },
    )
}

/// The tree of an expression.
pub open spec fn expression_view(e: &Expression) -> ExpressionView
    decreases e, 0nat,
{
    match e {
        Expression::Identifier(name) => ExpressionView::Identifier(name@),
        Expression::IntegerLiteral(value) => ExpressionView::IntegerLiteral(*value as int),
        Expression::BooleanLiteral(value) => ExpressionView::BooleanLiteral(*value),
        Expression::FunctionLiteral { parameters, body } => ExpressionView::FunctionLiteral {
            parameters: expression_views(parameters@),
            body: Box::new(statement_view(&**body)),
        },
        Expression::PrefixExpression { operator, right } => ExpressionView::PrefixExpression {
            operator: operator@,
            right: Box::new(expression_view(&**right)),
        },
        Expression::InfixExpression { left, operator, right } => ExpressionView::InfixExpression {
            left: Box::new(expression_view(&**left)),
            operator: operator@,
            right: Box::new(expression_view(&**right)),
        },
        Expression::IfExpression { condition, consequence, alternative } => {
            ExpressionView::IfExpression {
                condition: Box::new(expression_view(&**condition)),
                consequence: Box::new(statement_view(&**consequence)),
                alternative: match alternative {
                    Some(block) => Some(Box::new(statement_view(&**block))),
                    None => None,
                },
            }
        },
        Expression::CallExpression { function, arguments } => ExpressionView::CallExpression {
            function: Box::new(expression_view(&**function)),
            arguments: expression_views(arguments@),
        },
    }
}

impl View for Expression {
    type V = ExpressionView;

    open spec fn view(&self) -> ExpressionView {
        expression_view(self)
    }
}

/// The canonical text of a list of expressions: their texts, separated by a
/// comma and a space.
pub open spec fn render_list(items: Seq<ExpressionView>) -> Seq<char>
    decreases items, 0nat,
{
    if items.len() == 0 {
        Seq::empty()
    } else if items.len() == 1 {
        render_expression(items[0])
    } else {
        render_list(items.drop_last()) + ", "@ + render_expression(items.last())
    }
}

/// The canonical text of an expression.
pub open spec fn render_expression(e: ExpressionView) -> Seq<char>
    decreases e, 0nat,
{
    match e {
        ExpressionView::Identifier(name) => name,
        ExpressionView::IntegerLiteral(value) => decimal(value),
        ExpressionView::BooleanLiteral(value) => if value {
            "true"@
        } else {
            "false"@
        },
        ExpressionView::FunctionLiteral { parameters, body } => "fn ("@ + render_list(parameters)
            + ") "@ + render_statement(*body),
        ExpressionView::PrefixExpression { operator, right } => "("@ + operator
            + render_expression(*right) + ")"@,
        ExpressionView::InfixExpression { left, operator, right } => "("@ + render_expression(*left)
            + " "@ + operator + " "@ + render_expression(*right) + ")"@,
        ExpressionView::IfExpression { condition, consequence, alternative } => {
            let head = "if ("@ + render_expression(*condition) + ") "@ + render_statement(
                *consequence,
            );
            match alternative {
                Some(block) => head + " else "@ + render_statement(*block),
                None => head,
            }
        },
        ExpressionView::CallExpression { function, arguments } => render_expression(*function)
            + "("@ + render_list(arguments) + ")"@,
    }
}

/// Appends the canonical text of a list of expressions to `out`.
fn append_list(out: &mut String, items: &Vec<Box<Expression>>)
    ensures
        final(out)@ == old(out)@ + render_list(expression_views(items@)),
    decreases items, 0nat,
{
    let ghost views = expression_views(items@);
    let ghost start = out@;
    let mut i: usize = 0;
    while i < items.len()
        invariant
            i <= items.len(),
            views == expression_views(items@),
            out@ == start + render_list(views.take(i as int)),
        decreases items.len() - i,
    {
        if i > 0 {
            out.append(", ");
        }
        let text = items[i].to_string();
        out.append(text.as_str());
        proof {
            let next = views.take(i + 1);
            assert(next.drop_last() =~= views.take(i as int));
            assert(next.last() == expression_view(&*items@[i as int]));
        }
        i += 1;
    }
    proof {
        assert(views.take(items.len() as int) =~= views);
    }
}

impl Expression {
    /// Renders the expression in its canonical form: identifiers and
    /// literals as written, `(<op><right>)` for a prefix operator,
    /// `(<left> <op> <right>)` for a binary operator, `if (<cond>) <block>`
    /// with an optional ` else <block>`, `<fn>(<arg>, ...)` for a call and
    /// `fn (<param>, ...) <block>` for a function literal.
    pub fn to_string(&self) -> (s: String)
        ensures
            s@ == render_expression(self@),
        decreases self, 1nat,
    {
        match self {
            Expression::Identifier(name) => name.clone(),
            Expression::IntegerLiteral(value) => decimal_text(*value),
            Expression::BooleanLiteral(value) => {
                if *value {
                    String::from_str("true")
                } else {
                    String::from_str("false")
                }
            },
            Expression::FunctionLiteral { parameters, body } => {
                let mut s = String::from_str("fn (");
                append_list(&mut s, parameters);
                s.append(") ");
                let block = body.to_string();
                s.append(block.as_str());
                s
            },
            Expression::PrefixExpression { operator, right } => {
                let mut s = String::from_str("(");
                s.append(operator.as_str());
                let operand = right.to_string();
                s.append(operand.as_str());
                s.append(")");
                s
            },
            Expression::InfixExpression { left, operator, right } => {
                let mut s = String::from_str("(");
                let first = left.to_string();
                s.append(first.as_str());
                s.append(" ");
                s.append(operator.as_str());
                s.append(" ");
                let second = right.to_string();
                s.append(second.as_str());
                s.append(")");
                s
            },
            Expression::IfExpression { condition, consequence, alternative } => {
                let mut s = String::from_str("if (");
                let test = condition.to_string();
                s.append(test.as_str());
                s.append(") ");
                let block = consequence.to_string();
                s.append(block.as_str());
                match alternative {
                    Some(other) => {
                        s.append(" else ");
                        let block = other.to_string();
                        s.append(block.as_str());
                    },
                    None => {},
                }
                s
            },
            Expression::CallExpression { function, arguments } => {
                let mut s = function.to_string();
                s.append("(");
                append_list(&mut s, arguments);
                s.append(")");
                s
            },
        }
    }
}

} // verus!
