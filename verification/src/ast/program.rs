//! The root of the syntax tree.
use crate::ast::statement::{statement_views, Statement, StatementView};
use vstd::prelude::*;

verus! {

/// A program: its top-level statements, in source order.
#[derive(Debug)]
pub struct Program {
    pub statements: Vec<Statement>,
}

impl View for Program {
    type V = Seq<StatementView>;

    open spec fn view(&self) -> Seq<StatementView> {
        statement_views(self.statements@)
    }
}

impl Program {
    /// A program without statements.
    pub fn new() -> (p: Self)
        ensures
            p@ == Seq::<StatementView>::empty(),
    {
        Program { statements: Vec::new() }
    }
}

} // verus!
