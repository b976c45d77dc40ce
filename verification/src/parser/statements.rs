//! The rules for statements.

use crate::grammar;
use crate::node::{Label, NodeType, ParseNode};
use crate::parser::{ParseResult, Parser};
use crate::token::TokenType;
use vstd::prelude::*;

verus! {

impl Parser {
    pub(super) fn parse_compound_statement(&mut self) -> (r: ParseResult)
        ensures
            final(self).yields(
                old(self),
                r,
                grammar::compound_statement(old(self).input(), old(self).current as int),
            ),
        decreases old(self).tokens.len() - old(self).current, 1nat,
    {
        proof {
            use_type_invariant(&*self);
            reveal(grammar::compound_statement);
            reveal(grammar::statement_list);
        }
        let mut node = ParseNode::new(NodeType::CompoundStatement);
        node.add(self.consume_keyword("mulai", "Expected 'mulai' keyword.")?);
        node.add(self.parse_statement_list()?);
        node.add(self.consume_keyword("selesai", "Expected 'selesai' keyword.")?);
        Ok(node)
    }

    #[verifier::loop_isolation(false)]
    pub(super) fn parse_statement_list(&mut self) -> (r: ParseResult)
        ensures
            final(self).yields(
                old(self),
                r,
                grammar::statement_list(old(self).input(), old(self).current as int),
            ),
        decreases old(self).tokens.len() - old(self).current, 3nat,
    {
        proof {
            use_type_invariant(&*self);
            reveal(grammar::statement_list);
            reveal(grammar::more_statements);
            reveal(grammar::statement);
        }
        let mut node = ParseNode::new(NodeType::StatementList);
        if !self.check_value(&TokenType::Keyword, "selesai") {
            node.add(self.parse_statement()?);
            let ghost first = self.gathered(node);
            while self.match_token(&TokenType::Semicolon)
                invariant
                    self.in_progress(old(self), node, Label::StatementList),
                    grammar::more_statements(self.input(), first) == grammar::more_statements(
                        self.input(),
                        self.gathered(node),
                    ),
                decreases self.tokens.len() - self.current,
            {
                node.add(ParseNode::new_terminal(self.previous()));
                if self.check_value(&TokenType::Keyword, "selesai") {
                    break ;
                }
                node.add(self.parse_statement()?);
            }
        }
        Ok(node)
    }

    pub(super) fn parse_statement(&mut self) -> (r: ParseResult)
        ensures
            final(self).yields(
                old(self),
                r,
                grammar::statement(old(self).input(), old(self).current as int),
            ),
        decreases old(self).tokens.len() - old(self).current, 2nat,
    {
        proof {
            use_type_invariant(&*self);
            reveal(grammar::statement);
            reveal(grammar::if_statement);
            reveal(grammar::while_statement);
            reveal(grammar::for_statement);
            reveal(grammar::repeat_statement);
            reveal(grammar::compound_statement);
        }
        if self.check_value(&TokenType::Keyword, "jika") {
            self.parse_if_statement()
        } else if self.check_value(&TokenType::Keyword, "selama") {
            self.parse_while_statement()
        } else if self.check_value(&TokenType::Keyword, "untuk") {
            self.parse_for_statement()
        } else if self.check_value(&TokenType::Keyword, "ulangi") {
            self.parse_repeat_statement()
        } else if self.check_value(&TokenType::Keyword, "mulai") {
            self.parse_compound_statement()
        } else if self.check(&TokenType::Identifier) {
            let saved_pos = self.current;
            self.advance();
            if self.check(&TokenType::AssignOperator) {
                self.current = saved_pos;
                self.parse_assignment_statement()
            } else {
                self.current = saved_pos;
                self.parse_procedure_or_function_call()
            }
        } else {
            Ok(ParseNode::new(NodeType::StatementList))
        }
    }

    pub(super) fn parse_assignment_statement(&mut self) -> (r: ParseResult)
        ensures
            final(self).yields(
                old(self),
                r,
                grammar::assignment_statement(old(self).input(), old(self).current as int),
            ),
    {
        proof {
            use_type_invariant(&*self);
            reveal(grammar::assignment_statement);
        }
        let mut node = ParseNode::new(NodeType::AssignmentStatement);
        node.add(self.consume(TokenType::Identifier, "Expected identifier.")?);
        node.add(self.consume(TokenType::AssignOperator, "Expected ':=' operator.")?);
        node.add(self.parse_expression()?);
        Ok(node)
    }

    pub(super) fn parse_if_statement(&mut self) -> (r: ParseResult)
        ensures
            final(self).yields(
                old(self),
                r,
                grammar::if_statement(old(self).input(), old(self).current as int),
            ),
        decreases old(self).tokens.len() - old(self).current, 1nat,
    {
        proof {
            use_type_invariant(&*self);
            reveal(grammar::if_statement);
            reveal(grammar::statement);
        }
        let mut node = ParseNode::new(NodeType::IfStatement);
        node.add(self.consume_keyword("jika", "Expected 'jika' keyword.")?);
        node.add(self.parse_expression()?);
        node.add(self.consume_keyword("maka", "Expected 'maka' keyword.")?);
        node.add(self.parse_statement()?);
        if self.match_keyword("selain_itu") {
            node.add(ParseNode::new_terminal(self.previous()));
            node.add(self.parse_statement()?);
        }
        Ok(node)
    }

    pub(super) fn parse_while_statement(&mut self) -> (r: ParseResult)
        ensures
            final(self).yields(
                old(self),
                r,
                grammar::while_statement(old(self).input(), old(self).current as int),
            ),
        decreases old(self).tokens.len() - old(self).current, 1nat,
    {
        proof {
            use_type_invariant(&*self);
            reveal(grammar::while_statement);
            reveal(grammar::statement);
        }
        let mut node = ParseNode::new(NodeType::WhileStatement);
        node.add(self.consume_keyword("selama", "Expected 'selama' keyword.")?);
        node.add(self.parse_expression()?);
        node.add(self.consume_keyword("lakukan", "Expected 'lakukan' keyword.")?);
        node.add(self.parse_statement()?);
        Ok(node)
    }

    pub(super) fn parse_for_statement(&mut self) -> (r: ParseResult)
        ensures
            final(self).yields(
                old(self),
                r,
                grammar::for_statement(old(self).input(), old(self).current as int),
            ),
        decreases old(self).tokens.len() - old(self).current, 1nat,
    {
        proof {
            use_type_invariant(&*self);
            reveal(grammar::for_statement);
            reveal(grammar::statement);
        }
        let mut node = ParseNode::new(NodeType::ForStatement);
        node.add(self.consume_keyword("untuk", "Expected 'untuk' keyword.")?);
        node.add(self.consume(TokenType::Identifier, "Expected loop variable.")?);
        node.add(self.consume(TokenType::AssignOperator, "Expected ':=' operator.")?);
        node.add(self.parse_expression()?);
        if self.match_keyword("ke") {
            node.add(ParseNode::new_terminal(self.previous()));
        } else if self.match_keyword("turun_ke") {
            node.add(ParseNode::new_terminal(self.previous()));
        } else {
            return Err(self.fail("Expected 'ke' or 'turun_ke' keyword."));
        }
        node.add(self.parse_expression()?);
        node.add(self.consume_keyword("lakukan", "Expected 'lakukan' keyword.")?);
        node.add(self.parse_statement()?);
        Ok(node)
    }

    #[verifier::loop_isolation(false)]
    pub(super) fn parse_repeat_statement(&mut self) -> (r: ParseResult)
        ensures
            final(self).yields(
                old(self),
                r,
                grammar::repeat_statement(old(self).input(), old(self).current as int),
            ),
        decreases old(self).tokens.len() - old(self).current, 1nat,
    {
        proof {
            use_type_invariant(&*self);
            reveal(grammar::repeat_statement);
            reveal(grammar::repeat_body);
            reveal(grammar::statement);
        }
        let mut node = ParseNode::new(NodeType::RepeatStatement);
        node.add(self.consume_keyword("ulangi", "Expected 'ulangi' keyword.")?);
        let ghost first = self.gathered(node);
        loop
            invariant
                self.in_progress(old(self), node, Label::RepeatStatement),
                self.current > old(self).current,
                grammar::repeat_body(self.input(), first) == grammar::repeat_body(
                    self.input(),
                    self.gathered(node),
                ),
            decreases self.tokens.len() - self.current,
        {
            if self.check_value(&TokenType::Keyword, "sampai") {
                break ;
            }
            let before = self.current;
            node.add(self.parse_statement()?);
            if self.check_value(&TokenType::Keyword, "sampai") {
                break ;
            }
            if self.match_token(&TokenType::Semicolon) {
                node.add(ParseNode::new_terminal(self.previous()));
            }
            if self.current == before {
                break ;
            }
        }
        node.add(self.consume_keyword("sampai", "Expected 'sampai' keyword.")?);
        node.add(self.parse_expression()?);
        Ok(node)
    }

    pub(super) fn parse_procedure_or_function_call(&mut self) -> (r: ParseResult)
        ensures
            final(self).yields(
                old(self),
                r,
                grammar::procedure_or_function_call(old(self).input(), old(self).current as int),
            ),
    {
        proof {
            use_type_invariant(&*self);
            reveal(grammar::procedure_or_function_call);
            reveal(grammar::parameter_list);
        }
        let mut node = ParseNode::new(NodeType::ProcedureOrFunctionCall);
        node.add(self.consume(TokenType::Identifier, "Expected procedure or function name.")?);
        if self.match_token(&TokenType::LParenthesis) {
            node.add(ParseNode::new_terminal(self.previous()));
            if !self.check(&TokenType::RParenthesis) {
                node.add(self.parse_parameter_list()?);
            }
            node.add(self.consume(TokenType::RParenthesis, "Expected ')' after parameter list.")?);
        }
        Ok(node)
    }
}

} // verus!
