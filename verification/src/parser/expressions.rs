//! Expression-level parsing: precedence climbing, literals, prefix and
//! binary operators, and parenthesized groups.
use crate::ast::expression::{Expression, ExpressionView};
use crate::grammar;
use crate::grammar::ParseErrorView;
use crate::parser::{end_of_input, expression_outcome, ParseError, Parser};
use crate::text::{parse_integer, text_is};
use crate::token::{get_priority, Priority, TokenKind};
use vstd::prelude::*;
use vstd::string::StringExecFns;

verus! {

impl Parser {
    /// Parses an expression by precedence climbing: the form that the
    /// current token starts, then every binary operator or call whose
    /// binding strength exceeds `priority`. The cursor is left on the last
    /// token of the expression.
    pub fn parse_expression(&mut self, priority: Priority) -> (r: Result<Expression, ParseError>)
        requires
            old(self).wf(),
        ensures
            final(self).wf(),
            expression_outcome(r) == grammar::expression(old(self)@, priority.rank()).outcome,
            final(self)@ == grammar::expression(old(self)@, priority.rank()).cursor,
            final(self)@.not_before(old(self)@),
        decreases old(self)@.rest.len(), 7nat,
    {
        let ghost start = self@;
        let mut left = match self.parse_prefix() {
            Ok(e) => e,
            Err(e) => {
                return Err(e);
            },
        };
        loop
            invariant
                self.wf(),
                start == old(self)@,
                self@.not_before(start),
                grammar::climb(left@, self@, priority.rank()) == grammar::expression(
                    start,
                    priority.rank(),
                ),
            ensures
                self.wf(),
                start == old(self)@,
                self@.not_before(start),
                grammar::done(left@, self@) == grammar::expression(start, priority.rank()),
            decreases self@.rest.len(),
        {
            if self.peek_token_is(TokenKind::SemiColon) || priority.level()
                >= self.peek_priority().level() {
                break ;
            }
            self.next_token();
            let step = match self.current_kind() {
                TokenKind::Plus
                | TokenKind::Minus
                | TokenKind::Slash
                | TokenKind::Asterisk
                | TokenKind::Equal
                | TokenKind::NotEqual
                | TokenKind::LessThan
                | TokenKind::GreaterThan => self.parse_infix_expression(left),
                _ => self.parse_call_expression(left),
            };
            match step {
                Ok(next) => {
                    left = next;
                },
                Err(e) => {
                    return Err(e);
                },
            }
        }
        Ok(left)
    }

    /// Parses the form that the current token starts.
    pub(crate) fn parse_prefix(&mut self) -> (r: Result<Expression, ParseError>)
        requires
            old(self).wf(),
        ensures
            final(self).wf(),
            expression_outcome(r) == grammar::prefix(old(self)@).outcome,
            final(self)@ == grammar::prefix(old(self)@).cursor,
            final(self)@.not_before(old(self)@),
        decreases old(self)@.rest.len(), 6nat,
    {
        match self.current_kind() {
            TokenKind::Ident => self.parse_identifier(),
            TokenKind::IntLiteral => self.parse_integer_literal(),
            TokenKind::BoolLiteral => self.parse_boolean_literal(),
            TokenKind::Bang | TokenKind::Minus => self.parse_prefix_expression(),
            TokenKind::Lparen => self.parse_grouped_expression(),
            TokenKind::If => self.parse_if_expression(),
            TokenKind::Fn => self.parse_function_literal(),
            other => {
                let mut message = String::from_str("no prefix but found ");
                message.append(other.name());
                ParseError::throw(message)
            },
        }
    }

    /// The current token, as an identifier.
    pub(crate) fn parse_identifier(&self) -> (r: Result<Expression, ParseError>)
        ensures
            expression_outcome(r) == Ok::<ExpressionView, ParseErrorView>(
                ExpressionView::Identifier(self@.token.text),
            ),
    {
        Ok(Expression::Identifier(self.current_text()))
    }

    /// The current token, as a 32-bit integer.
    pub(crate) fn parse_integer_literal(&self) -> (r: Result<Expression, ParseError>)
        ensures
            expression_outcome(r) == (match crate::text::integer_of(self@.token.text) {
                Some(value) => Ok(ExpressionView::IntegerLiteral(value)),
                None => Err(
                    ParseErrorView {
                        message: grammar::bad_integer_message(self@.token.text),
                        uncheck: false,
                    },
                ),
            }),
    {
        let text = self.current_text();
        match parse_integer(text.as_str()) {
            Some(number) => Ok(Expression::IntegerLiteral(number)),
            None => {
                let mut message = String::from_str("could not parse ");
                message.append(text.as_str());
                message.append(" as integer.");
                ParseError::throw(message)
            },
        }
    }

    /// The current token, as a boolean.
    pub(crate) fn parse_boolean_literal(&self) -> (r: Result<Expression, ParseError>)
        ensures
            expression_outcome(r) == (if self@.token.text == "true"@ {
                Ok(ExpressionView::BooleanLiteral(true))
            } else if self@.token.text == "false"@ {
                Ok(ExpressionView::BooleanLiteral(false))
            } else {
                Err(
                    ParseErrorView {
                        message: grammar::bad_boolean_message(self@.token.text),
                        uncheck: false,
                    },
                )
            }),
    {
        let text = self.current_text();
        if text_is(&text, "true") {
            Ok(Expression::BooleanLiteral(true))
        } else if text_is(&text, "false") {
            Ok(Expression::BooleanLiteral(false))
        } else {
            let mut message = String::from_str("could not parse ");
            message.append(text.as_str());
            message.append(" as boolean.");
            ParseError::throw(message)
        }
    }

    /// Parses a prefix operator and its operand. The cursor is on the
    /// operator.
    pub(crate) fn parse_prefix_expression(&mut self) -> (r: Result<Expression, ParseError>)
        requires
            old(self).wf(),
        ensures
            final(self).wf(),
            expression_outcome(r) == grammar::prefix_operator(old(self)@).outcome,
            final(self)@ == grammar::prefix_operator(old(self)@).cursor,
            final(self)@.not_before(old(self)@),
        decreases old(self)@.rest.len(), 5nat,
    {
        let operator = self.current_text();
        if !self.next_token() {
            return end_of_input();
        }
        match self.parse_expression(Priority::Prefix) {
            Ok(right) => Ok(Expression::PrefixExpression { operator, right: Box::new(right) }),
            Err(e) => Err(e),
        }
    }

    /// Parses a binary operator and its right operand, with `left` as its
    /// left operand. The cursor is on the operator.
    pub(crate) fn parse_infix_expression(&mut self, left: Expression) -> (r: Result<
        Expression,
        ParseError,
    >)
        requires
            old(self).wf(),
        ensures
            final(self).wf(),
            expression_outcome(r) == grammar::infix(left@, old(self)@).outcome,
            final(self)@ == grammar::infix(left@, old(self)@).cursor,
            final(self)@.not_before(old(self)@),
        decreases old(self)@.rest.len(), 5nat,
    {
        let operator = self.current_text();
        let priority = get_priority(self.current_kind());
        if !self.next_token() {
            return end_of_input();
        }
        match self.parse_expression(priority) {
            Ok(right) => Ok(
                Expression::InfixExpression {
                    left: Box::new(left),
                    operator,
                    right: Box::new(right),
                },
            ),
            Err(e) => Err(e),
        }
    }

    /// Parses a parenthesized expression. The cursor is on `(`, and is left
    /// on the matching `)`.
    pub(crate) fn parse_grouped_expression(&mut self) -> (r: Result<Expression, ParseError>)
        requires
            old(self).wf(),
        ensures
            final(self).wf(),
            expression_outcome(r) == grammar::grouped(old(self)@).outcome,
            final(self)@ == grammar::grouped(old(self)@).cursor,
            final(self)@.not_before(old(self)@),
        decreases old(self)@.rest.len(), 5nat,
    {
        if !self.next_token() {
            return end_of_input();
        }
        let expression = match self.parse_expression(Priority::Lowest) {
            Ok(e) => e,
            Err(e) => {
                return Err(e);
            },
        };
        if !self.peek_token_is(TokenKind::Rparen) {
            return ParseError::throw(String::from_str("expected ')' but not found."));
        }
        self.next_token();
        Ok(expression)
    }
}

} // verus!
