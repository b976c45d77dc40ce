//! The rules for expressions.

use crate::grammar;
use crate::node::{Label, NodeType, ParseNode};
use crate::parser::{ParseResult, Parser};
use crate::token::{Token, TokenType};
use vstd::prelude::*;

verus! {

impl Parser {
    #[verifier::loop_isolation(false)]
    pub(super) fn parse_parameter_list(&mut self) -> (r: ParseResult)
        ensures
            final(self).yields(
                old(self),
                r,
                grammar::parameter_list(old(self).input(), old(self).current as int),
            ),
        decreases old(self).tokens.len() - old(self).current, 5nat,
    {
        proof {
            use_type_invariant(&*self);
            reveal(grammar::parameter_list);
            reveal(grammar::more_arguments);
            reveal(grammar::expression);
        }
        let mut node = ParseNode::new(NodeType::ParameterList);
        node.add(self.parse_expression()?);
        let ghost first = self.gathered(node);
        while self.match_token(&TokenType::Comma)
            invariant
                self.in_progress(old(self), node, Label::ParameterList),
                grammar::more_arguments(self.input(), first) == grammar::more_arguments(
                    self.input(),
                    self.gathered(node),
                ),
            decreases self.tokens.len() - self.current,
        {
            node.add(ParseNode::new_terminal(self.previous()));
            node.add(self.parse_expression()?);
        }
        Ok(node)
    }

    pub(super) fn parse_expression(&mut self) -> (r: ParseResult)
        ensures
            final(self).yields(
                old(self),
                r,
                grammar::expression(old(self).input(), old(self).current as int),
            ),
        decreases old(self).tokens.len() - old(self).current, 4nat,
    {
        proof {
            use_type_invariant(&*self);
            reveal(grammar::expression);
            reveal(grammar::simple_expression);
        }
        let mut node = ParseNode::new(NodeType::Expression);
        let left_node = self.parse_simple_expression()?;
        if self.check(&TokenType::RelationalOperator) {
            node.add(left_node);
            node.add(self.parse_relational_operator()?);
            node.add(self.parse_simple_expression()?);
        } else {
            node.add(left_node);
        }
        Ok(node)
    }

    #[verifier::loop_isolation(false)]
    pub(super) fn parse_simple_expression(&mut self) -> (r: ParseResult)
        ensures
            final(self).yields(
                old(self),
                r,
                grammar::simple_expression(old(self).input(), old(self).current as int),
            ),
        decreases old(self).tokens.len() - old(self).current, 3nat,
    {
        proof {
            use_type_invariant(&*self);
            reveal(grammar::simple_expression);
            reveal(grammar::more_terms);
            reveal(grammar::term);
        }
        let mut node = ParseNode::new(NodeType::SimpleExpression);
        if self.check_value(&TokenType::ArithmeticOperator, "+") || self.check_value(
            &TokenType::ArithmeticOperator,
            "-",
        ) {
            node.add(self.take());
        }
        node.add(self.parse_term()?);
        let ghost first = self.gathered(node);
        loop
            invariant
                self.in_progress(old(self), node, Label::SimpleExpression),
                grammar::more_terms(self.input(), first) == grammar::more_terms(
                    self.input(),
                    self.gathered(node),
                ),
            decreases self.tokens.len() - self.current,
        {
            match self.match_additive_operator() {
                Some(operator_token) => {
                    node.add(ParseNode::new_terminal(operator_token));
                    node.add(self.parse_term()?);
                },
                None => {
                    break ;
                },
            }
        }
        Ok(node)
    }

    #[verifier::loop_isolation(false)]
    pub(super) fn parse_term(&mut self) -> (r: ParseResult)
        ensures
            final(self).yields(
                old(self),
                r,
                grammar::term(old(self).input(), old(self).current as int),
            ),
        decreases old(self).tokens.len() - old(self).current, 2nat,
    {
        proof {
            use_type_invariant(&*self);
            reveal(grammar::term);
            reveal(grammar::more_factors);
            reveal(grammar::factor);
        }
        let mut node = ParseNode::new(NodeType::Term);
        node.add(self.parse_factor()?);
        let ghost first = self.gathered(node);
        loop
            invariant
                self.in_progress(old(self), node, Label::Term),
                grammar::more_factors(self.input(), first) == grammar::more_factors(
                    self.input(),
                    self.gathered(node),
                ),
            decreases self.tokens.len() - self.current,
        {
            match self.match_multiplicative_operator() {
                Some(operator_token) => {
                    node.add(ParseNode::new_terminal(operator_token));
                    node.add(self.parse_factor()?);
                },
                None => {
                    break ;
                },
            }
        }
        Ok(node)
    }

    /// A call inside an expression, once its name has been taken: from the
    /// `(` to the `)`.
    fn parse_function_call(&mut self, identifier_token: Token) -> (r: ParseResult)
        requires
            0 < old(self).current <= old(self).tokens.len(),
            identifier_token@ == old(self).input()[old(self).current - 1],
        ensures
            final(self).yields(
                old(self),
                r,
                grammar::factor_call(old(self).input(), old(self).current - 1),
            ),
        decreases old(self).tokens.len() - old(self).current, 0nat,
    {
        proof {
            use_type_invariant(&*self);
            reveal(grammar::factor_call);
            reveal(grammar::parameter_list);
        }
        let mut func_call_node = ParseNode::new(NodeType::ProcedureOrFunctionCall);
        func_call_node.add(ParseNode::new_terminal(identifier_token));
        assert(self.gathered(func_call_node) == grammar::begin(self.current - 1).take(
            self.input(),
        ));
        func_call_node.add(self.consume(TokenType::LParenthesis, "Expected '('.")?);
        if !self.check(&TokenType::RParenthesis) {
            func_call_node.add(self.parse_parameter_list()?);
        }
        func_call_node.add(
            self.consume(TokenType::RParenthesis, "Expected ')' after parameters.")?,
        );
        Ok(func_call_node)
    }

    /// The fields selected from an identifier, once the identifier has been
    /// taken into the factor's node.
    #[verifier::loop_isolation(false)]
    fn parse_field_access(&mut self, node: ParseNode) -> (r: ParseResult)
        requires
            node@.label == Label::Factor,
        ensures
            final(self).yields(
                old(self),
                r,
                grammar::more_fields(
                    old(self).input(),
                    old(self).gathered(node),
                ).finish(Label::Factor),
            ),
    {
        proof {
            use_type_invariant(&*self);
            reveal(grammar::more_fields);
        }
        let mut node = node;
        let ghost first = self.gathered(node);
        while self.match_token(&TokenType::Dot)
            invariant
                self.in_progress(old(self), node, Label::Factor),
                grammar::more_fields(self.input(), first) == grammar::more_fields(
                    self.input(),
                    self.gathered(node),
                ),
            decreases self.tokens.len() - self.current,
        {
            node.add(ParseNode::new_terminal(self.previous()));
            node.add(self.consume(TokenType::Identifier, "Expected field name after '.'.")?);
        }
        Ok(node)
    }

    pub(super) fn parse_factor(&mut self) -> (r: ParseResult)
        ensures
            final(self).yields(
                old(self),
                r,
                grammar::factor(old(self).input(), old(self).current as int),
            ),
        decreases old(self).tokens.len() - old(self).current, 1nat,
    {
        proof {
            use_type_invariant(&*self);
            reveal(grammar::factor);
            reveal(grammar::factor_call);
            reveal(grammar::expression);
        }
        let mut node = ParseNode::new(NodeType::Factor);
        if self.match_token(&TokenType::Number) {
            node.add(ParseNode::new_terminal(self.previous()));
        } else if self.match_token(&TokenType::CharLiteral) {
            node.add(ParseNode::new_terminal(self.previous()));
        } else if self.match_token(&TokenType::StringLiteral) {
            node.add(ParseNode::new_terminal(self.previous()));
        } else if self.match_token(&TokenType::LParenthesis) {
            node.add(ParseNode::new_terminal(self.previous()));
            node.add(self.parse_expression()?);
            node.add(self.consume(TokenType::RParenthesis, "Expected ')' after expression.")?);
        } else if self.check_value(&TokenType::Keyword, "true") || self.check_value(
            &TokenType::Keyword,
            "false",
        ) {
            node.add(self.take());
        } else if self.check_value(&TokenType::LogicalOperator, "tidak") {
            node.add(self.take());
            node.add(self.parse_factor()?);
        } else if self.check(&TokenType::Identifier) {
            let identifier_token = self.advance();
            if self.check(&TokenType::LParenthesis) {
                node.add(self.parse_function_call(identifier_token)?);
            } else {
                node.add(ParseNode::new_terminal(identifier_token));
                return self.parse_field_access(node);
            }
        } else {
            return Err(
                self.fail("Expected a factor (e.g., number, identifier, or '(expression)')."),
            );
        }
        Ok(node)
    }

    pub(super) fn parse_relational_operator(&mut self) -> (r: ParseResult)
        ensures
            final(self).yields(
                old(self),
                r,
                grammar::token(
                    old(self).input(),
                    old(self).current as int,
                    TokenType::RelationalOperator,
                    "Expected a relational operator (e.g., =, <, >)."@,
                ),
            ),
    {
        if self.check(&TokenType::RelationalOperator) {
            Ok(self.take())
        } else {
            Err(self.fail("Expected a relational operator (e.g., =, <, >)."))
        }
    }

    pub(super) fn match_additive_operator(&mut self) -> (r: Option<Token>)
        ensures
            final(self).tokens == old(self).tokens,
            r is Some == grammar::is_additive(old(self).input(), old(self).current as int),
            match r {
                Some(token) => final(self).current == old(self).current + 1
                    && token@ == old(self).input()[old(self).current as int],
                None => final(self).current == old(self).current,
            },
    {
        if self.check_value(&TokenType::ArithmeticOperator, "+") || self.check_value(
            &TokenType::ArithmeticOperator,
            "-",
        ) {
            Some(self.advance())
        } else if self.check_value(&TokenType::LogicalOperator, "atau") {
            Some(self.advance())
        } else {
            None
        }
    }

    pub(super) fn match_multiplicative_operator(&mut self) -> (r: Option<Token>)
        ensures
            final(self).tokens == old(self).tokens,
            r is Some == grammar::is_multiplicative(old(self).input(), old(self).current as int),
            match r {
                Some(token) => final(self).current == old(self).current + 1
                    && token@ == old(self).input()[old(self).current as int],
                None => final(self).current == old(self).current,
            },
    {
        if self.check_value(&TokenType::ArithmeticOperator, "*") || self.check_value(
            &TokenType::ArithmeticOperator,
            "/",
        ) {
            Some(self.advance())
        } else if self.check_value(&TokenType::Keyword, "bagi") || self.check_value(
            &TokenType::Keyword,
            "mod",
        ) {
            Some(self.advance())
        } else if self.check_value(&TokenType::LogicalOperator, "dan") {
            Some(self.advance())
        } else {
            None
        }
    }
}

} // verus!
