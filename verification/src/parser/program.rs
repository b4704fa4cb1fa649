//! The top-level loop: one statement after the other, until the tokens are
//! exhausted.
use crate::ast::program::Program;
use crate::ast::statement::{statement_views, Statement};
use crate::grammar;
use crate::parser::{outcome_views, statement_outcome, ParseError, Parser};
use vstd::prelude::*;

verus! {

impl Parser {
    /// Parses the whole token stream and returns the outcome of every
    /// statement, in order: the statement, or the error that ended it. A
    /// failed statement does not stop the parse.
    pub fn parse_outcomes(&mut self) -> (outcomes: Vec<Result<Statement, ParseError>>)
        requires
            old(self).wf(),
        ensures
            final(self).wf(),
            outcome_views(outcomes@) == grammar::program(old(self)@),
            final(self)@.rest.len() == 0,
    {
        let ghost start = self@;
        let mut outcomes: Vec<Result<Statement, ParseError>> = Vec::new();
        assert(outcome_views(outcomes@) =~= Seq::empty());
        loop
            invariant
                self.wf(),
                grammar::outcomes_from(self@, outcome_views(outcomes@)) == grammar::program(start),
            ensures
                self.wf(),
                self@.rest.len() == 0,
                outcome_views(outcomes@) == grammar::program(start),
            decreases self@.rest.len(),
        {
            let ghost before = outcome_views(outcomes@);
            if !self.next_token() {
                break ;
            }
            let item = self.parse_statement();
            assert(outcome_views(outcomes@.push(item)) =~= before.push(statement_outcome(item)));
            outcomes.push(item);
        }
        outcomes
    }

    /// Parses the whole token stream and returns the program made of the
    /// statements that parsed, in order. A failed statement is left out and
    /// does not stop the parse.
    pub fn parse_program(&mut self) -> (program: Program)
        requires
            old(self).wf(),
        ensures
            final(self).wf(),
            program@ == grammar::successes(grammar::program(old(self)@)),
            final(self)@.rest.len() == 0,
    {
        let outcomes = self.parse_outcomes();
        Program { statements: keep_statements(outcomes) }
    }
}

/// The statements among the outcomes, in order.
fn keep_statements(outcomes: Vec<Result<Statement, ParseError>>) -> (statements: Vec<Statement>)
    ensures
        statement_views(statements@) == grammar::successes(outcome_views(outcomes@)),
{
    let ghost all = outcome_views(outcomes@);
    let mut statements: Vec<Statement> = Vec::new();
    assert(all.take(0) =~= Seq::empty());
    assert(statement_views(statements@) =~= Seq::empty());
    for item in it: outcomes
        invariant
            it.seq() == outcomes@,
            all == outcome_views(outcomes@),
            statement_views(statements@) == grammar::successes(all.take(it.index())),
    {
        let ghost i = it.index();
        let ghost before = statement_views(statements@);
        proof {
            assert(all.take(i + 1).drop_last() =~= all.take(i));
            assert(all.take(i + 1).last() == statement_outcome(item));
        }
        match item {
            Ok(statement) => {
                assert(statement_views(statements@.push(statement)) =~= before.push(statement@));
                statements.push(statement);
            },
            Err(_) => {},
        }
    }
    assert(all.take(all.len() as int) =~= all);
    statements
}

} // verus!
