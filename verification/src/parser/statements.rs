//! Statement-level parsing: dispatch, `let`, `return`, expression
//! statements and blocks.
use crate::ast::expression::Expression;
use crate::ast::statement::{statement_views, Statement, StatementView};
use crate::grammar;
use crate::parser::{end_of_input, statement_outcome, ParseError, Parser};
use crate::token::{Priority, TokenKind};
use vstd::prelude::*;

verus! {

impl Parser {
    /// Parses one statement, chosen by the current token: a `let`
    /// statement, a `return` statement, or an expression statement. The
    /// cursor is left on the last token of the statement.
    pub fn parse_statement(&mut self) -> (r: Result<Statement, ParseError>)
        requires
            old(self).wf(),
        ensures
            final(self).wf(),
            statement_outcome(r) == grammar::statement(old(self)@).outcome,
            final(self)@ == grammar::statement(old(self)@).cursor,
            final(self)@.not_before(old(self)@),
        decreases old(self)@.rest.len(), 9nat,
    {
        match self.current_kind() {
            TokenKind::Let => self.parse_let_statement(),
            TokenKind::Return => self.parse_return_statement(),
            _ => self.parse_expression_statement(),
        }
    }

    /// Parses `let <identifier> = <expression>` and an optional terminator.
    /// The cursor is on `let`.
    pub(crate) fn parse_let_statement(&mut self) -> (r: Result<Statement, ParseError>)
        requires
            old(self).wf(),
        ensures
            final(self).wf(),
            statement_outcome(r) == grammar::let_statement(old(self)@).outcome,
            final(self)@ == grammar::let_statement(old(self)@).cursor,
            final(self)@.not_before(old(self)@),
        decreases old(self)@.rest.len(), 8nat,
    {
        let ident = match self.expect_next(TokenKind::Ident) {
            Ok(t) => t,
            Err(e) => {
                return Err(e);
            },
        };
        match self.expect_next(TokenKind::Assign) {
            Ok(_) => {},
            Err(e) => {
                return Err(e);
            },
        }
        if !self.next_token() {
            return end_of_input();
        }
        let value = match self.parse_expression(Priority::Lowest) {
            Ok(v) => v,
            Err(e) => {
                return Err(e);
            },
        };
        if self.peek_token_is(TokenKind::SemiColon) {
            self.next_token();
        }
        Ok(Statement::LetStatement { name: Expression::Identifier(ident.value), value })
    }

    /// Parses `return <expression>` and an optional terminator. The cursor
    /// is on `return`.
    pub(crate) fn parse_return_statement(&mut self) -> (r: Result<Statement, ParseError>)
        requires
            old(self).wf(),
        ensures
            final(self).wf(),
            statement_outcome(r) == grammar::return_statement(old(self)@).outcome,
            final(self)@ == grammar::return_statement(old(self)@).cursor,
            final(self)@.not_before(old(self)@),
        decreases old(self)@.rest.len(), 8nat,
    {
        if !self.next_token() {
            return end_of_input();
        }
        let value = match self.parse_expression(Priority::Lowest) {
            Ok(v) => v,
            Err(e) => {
                return Err(e);
            },
        };
        if self.peek_token_is(TokenKind::SemiColon) {
            self.next_token();
        }
        Ok(Statement::ReturnStatement { value })
    }

    /// Parses an expression used as a statement, and an optional
    /// terminator.
    pub(crate) fn parse_expression_statement(&mut self) -> (r: Result<Statement, ParseError>)
        requires
            old(self).wf(),
        ensures
            final(self).wf(),
            statement_outcome(r) == grammar::expression_statement(old(self)@).outcome,
            final(self)@ == grammar::expression_statement(old(self)@).cursor,
            final(self)@.not_before(old(self)@),
        decreases old(self)@.rest.len(), 8nat,
    {
        let value = match self.parse_expression(Priority::Lowest) {
            Ok(v) => v,
            Err(e) => {
                return Err(e);
            },
        };
        if self.peek_token_is(TokenKind::SemiColon) {
            self.next_token();
        }
        Ok(Statement::ExpressionStatement { value })
    }

    /// Parses the statements of a block. The cursor is on `{`, and is left
    /// on the matching `}`.
    pub(crate) fn parse_block_statement(&mut self) -> (r: Result<Statement, ParseError>)
        requires
            old(self).wf(),
        ensures
            final(self).wf(),
            statement_outcome(r) == grammar::block(old(self)@).outcome,
            final(self)@ == grammar::block(old(self)@).cursor,
            final(self)@.not_before(old(self)@),
        decreases old(self)@.rest.len(), 4nat,
    {
        let ghost start = self@;
        let mut statements: Vec<Statement> = Vec::new();
        if !self.next_token() {
            return end_of_input();
        }
        assert(statement_views(statements@) =~= Seq::<StatementView>::empty());
        loop
            invariant
                self.wf(),
                start == old(self)@,
                start.rest.len() > 0,
                self@.rest.len() < start.rest.len(),
                grammar::block_items(self@, statement_views(statements@)) == grammar::block_items(
                    start.advance(),
                    Seq::empty(),
                ),
            ensures
                self.wf(),
                start == old(self)@,
                start.rest.len() > 0,
                self@.rest.len() < start.rest.len(),
                grammar::block_items(start.advance(), Seq::empty()) == grammar::done(
                    statement_views(statements@),
                    self@,
                ),
            decreases self@.rest.len(),
        {
            if self.current_kind() == TokenKind::Rcurly {
                break ;
            }
            let ghost before = statement_views(statements@);
            match self.parse_statement() {
                Ok(s) => {
                    assert(statement_views(statements@.push(s)) =~= before.push(s@));
                    statements.push(s);
                },
                Err(e) => {
                    return Err(e);
                },
            }
            if !self.next_token() {
                return end_of_input();
            }
        }
        Ok(Statement::BlockStatement { statements })
    }
}

} // verus!
