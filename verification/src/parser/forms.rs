//! The forms with a list or a block inside: function literals,
//! conditionals and calls.
use crate::ast::expression::{expression_views, Expression, ExpressionView};
use crate::grammar;
use crate::parser::{end_of_input, expression_outcome, list_outcome, ParseError, Parser};
use crate::token::{Priority, TokenKind};
use vstd::prelude::*;

verus! {

impl Parser {
    /// Parses `fn (<parameters>) <block>`. The cursor is on `fn`.
    pub(crate) fn parse_function_literal(&mut self) -> (r: Result<Expression, ParseError>)
        requires
            old(self).wf(),
        ensures
            final(self).wf(),
            expression_outcome(r) == grammar::function_literal(old(self)@).outcome,
            final(self)@ == grammar::function_literal(old(self)@).cursor,
            final(self)@.not_before(old(self)@),
        decreases old(self)@.rest.len(), 5nat,
    {
        match self.expect_next(TokenKind::Lparen) {
            Ok(_) => {},
            Err(e) => {
                return Err(e);
            },
        }
        let parameters = match self.parse_function_params() {
            Ok(p) => p,
            Err(e) => {
                return Err(e);
            },
        };
        match self.expect_next(TokenKind::Lcurly) {
            Ok(_) => {},
            Err(e) => {
                return Err(e);
            },
        }
        let body = match self.parse_block_statement() {
            Ok(b) => Box::new(b),
            Err(e) => {
                return Err(e);
            },
        };
        Ok(Expression::FunctionLiteral { parameters, body })
    }

    /// Parses the parameters of a function literal, up to the closing
    /// parenthesis. The cursor is on `(`.
    pub(crate) fn parse_function_params(&mut self) -> (r: Result<Vec<Box<Expression>>, ParseError>)
        requires
            old(self).wf(),
        ensures
            final(self).wf(),
            list_outcome(r) == grammar::parameters(old(self)@).outcome,
            final(self)@ == grammar::parameters(old(self)@).cursor,
            final(self)@.not_before(old(self)@),
    {
        let ghost start = self@;
        let mut params: Vec<Box<Expression>> = Vec::new();
        if !self.next_token() {
            return end_of_input();
        }
        if self.current_kind() == TokenKind::Rparen {
            assert(expression_views(params@) =~= Seq::<ExpressionView>::empty());
            return Ok(params);
        }
        params.push(Box::new(Expression::Identifier(self.current_text())));
        assert(expression_views(params@) =~= seq![ExpressionView::Identifier(self@.token.text)]);
        loop
            invariant
                self.wf(),
                start == old(self)@,
                self@.not_before(start),
                grammar::more_parameters(self@, expression_views(params@)) == grammar::parameters(
                    start,
                ),
            ensures
                !self@.peek_is(TokenKind::Comma),
            decreases self@.rest.len(),
        {
            if !self.peek_token_is(TokenKind::Comma) {
                break ;
            }
            self.next_token();
            if !self.next_token() {
                return end_of_input();
            }
            let ghost before = expression_views(params@);
            let param = Box::new(Expression::Identifier(self.current_text()));
            assert(expression_views(params@.push(param)) =~= before.push(
                ExpressionView::Identifier(self@.token.text),
            ));
            params.push(param);
        }
        match self.expect_next(TokenKind::Rparen) {
            Ok(_) => Ok(params),
            Err(e) => Err(e),
        }
    }

    /// Parses `if (<condition>) <block>` and an optional `else <block>`.
    /// The cursor is on `if`.
    #[verifier::rlimit(40)]
    pub(crate) fn parse_if_expression(&mut self) -> (r: Result<Expression, ParseError>)
        requires
            old(self).wf(),
        ensures
            final(self).wf(),
            expression_outcome(r) == grammar::if_expression(old(self)@).outcome,
            final(self)@ == grammar::if_expression(old(self)@).cursor,
            final(self)@.not_before(old(self)@),
        decreases old(self)@.rest.len(), 5nat,
    {
        match self.expect_next(TokenKind::Lparen) {
            Ok(_) => {},
            Err(e) => {
                return Err(e);
            },
        }
        if !self.next_token() {
            return end_of_input();
        }
        let condition = match self.parse_expression(Priority::Lowest) {
            Ok(c) => c,
            Err(e) => {
                return Err(e);
            },
        };
        match self.expect_next(TokenKind::Rparen) {
            Ok(_) => {},
            Err(e) => {
                return Err(e);
            },
        }
        match self.expect_next(TokenKind::Lcurly) {
            Ok(_) => {},
            Err(e) => {
                return Err(e);
            },
        }
        let consequence = match self.parse_block_statement() {
            Ok(b) => Box::new(b),
            Err(e) => {
                return Err(e);
            },
        };
        let alternative = if self.peek_token_is(TokenKind::Else) {
            self.next_token();
            match self.expect_next(TokenKind::Lcurly) {
                Ok(_) => {},
                Err(e) => {
                    return Err(e);
                },
            }
            match self.parse_block_statement() {
                Ok(b) => Some(Box::new(b)),
                Err(e) => {
                    return Err(e);
                },
            }
        } else {
            None
        };
        Ok(Expression::IfExpression { condition: Box::new(condition), consequence, alternative })
    }

    /// Parses a call of `function`. The cursor is on `(`.
    pub(crate) fn parse_call_expression(&mut self, function: Expression) -> (r: Result<
        Expression,
        ParseError,
    >)
        requires
            old(self).wf(),
        ensures
            final(self).wf(),
            expression_outcome(r) == grammar::call(function@, old(self)@).outcome,
            final(self)@ == grammar::call(function@, old(self)@).cursor,
            final(self)@.not_before(old(self)@),
        decreases old(self)@.rest.len(), 5nat,
    {
        match self.parse_call_arguments() {
            Ok(arguments) => Ok(
                Expression::CallExpression { function: Box::new(function), arguments },
            ),
            Err(e) => Err(e),
        }
    }

    /// Parses the arguments of a call, up to the closing parenthesis. The
    /// cursor is on `(`.
    pub(crate) fn parse_call_arguments(&mut self) -> (r: Result<Vec<Box<Expression>>, ParseError>)
        requires
            old(self).wf(),
        ensures
            final(self).wf(),
            list_outcome(r) == grammar::arguments(old(self)@).outcome,
            final(self)@ == grammar::arguments(old(self)@).cursor,
            final(self)@.not_before(old(self)@),
        decreases old(self)@.rest.len(), 4nat,
    {
        let ghost start = self@;
        let mut arguments: Vec<Box<Expression>> = Vec::new();
        if !self.next_token() {
            return end_of_input();
        }
        if self.current_kind() == TokenKind::Rparen {
            assert(expression_views(arguments@) =~= Seq::<ExpressionView>::empty());
            return Ok(arguments);
        }
        match self.parse_expression(Priority::Lowest) {
            Ok(e) => {
                let first = Box::new(e);
                assert(expression_views(arguments@.push(first)) =~= seq![e@]);
                arguments.push(first);
            },
            Err(e) => {
                return Err(e);
            },
        }
        loop
            invariant
                self.wf(),
                start == old(self)@,
                start.rest.len() > 0,
                self@.rest.len() < start.rest.len(),
                grammar::more_arguments(self@, expression_views(arguments@)) == grammar::arguments(
                    start,
                ),
            ensures
                !self@.peek_is(TokenKind::Comma),
            decreases self@.rest.len(),
        {
            if !self.peek_token_is(TokenKind::Comma) {
                break ;
            }
            self.next_token();
            if !self.next_token() {
                return end_of_input();
            }
            let ghost before = expression_views(arguments@);
            match self.parse_expression(Priority::Lowest) {
                Ok(e) => {
                    let next = Box::new(e);
                    assert(expression_views(arguments@.push(next)) =~= before.push(e@));
                    arguments.push(next);
                },
                Err(e) => {
                    return Err(e);
                },
            }
        }
        match self.expect_next(TokenKind::Rparen) {
            Ok(_) => Ok(arguments),
            Err(e) => Err(e),
        }
    }
}

} // verus!
