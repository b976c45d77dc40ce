//! The rules for declarations and types.

use crate::grammar;
use crate::node::{Label, NodeType, ParseNode};
use crate::parser::{ParseResult, Parser};
use crate::token::TokenType;
use vstd::prelude::*;

verus! {

impl Parser {
    #[verifier::loop_isolation(false)]
    pub(super) fn parse_declaration_part(&mut self) -> (r: ParseResult)
        ensures
            final(self).yields(
                old(self),
                r,
                grammar::declaration_part(old(self).input(), old(self).current as int),
            ),
        decreases old(self).tokens.len() - old(self).current, 3nat,
    {
        proof {
            use_type_invariant(&*self);
            reveal(grammar::declaration_part);
            reveal(grammar::const_sections);
            reveal(grammar::type_sections);
            reveal(grammar::var_sections);
            reveal(grammar::subprogram_sections);
            reveal(grammar::subprogram_declaration);
        }
        let mut node = ParseNode::new(NodeType::DeclarationPart);
        let ghost first = self.gathered(node);
        while self.check_value(&TokenType::Keyword, "konstanta")
            invariant
                self.in_progress(old(self), node, Label::DeclarationPart),
                grammar::const_sections(self.input(), first) == grammar::const_sections(
                    self.input(),
                    self.gathered(node),
                ),
            decreases self.tokens.len() - self.current,
        {
            node.add(self.parse_const_declaration()?);
        }
        let ghost second = self.gathered(node);
        while self.check_value(&TokenType::Keyword, "tipe")
            invariant
                self.in_progress(old(self), node, Label::DeclarationPart),
                grammar::type_sections(self.input(), second) == grammar::type_sections(
                    self.input(),
                    self.gathered(node),
                ),
            decreases self.tokens.len() - self.current,
        {
            node.add(self.parse_type_declaration()?);
        }
        let ghost third = self.gathered(node);
        while self.check_value(&TokenType::Keyword, "variabel")
            invariant
                self.in_progress(old(self), node, Label::DeclarationPart),
                grammar::var_sections(self.input(), third) == grammar::var_sections(
                    self.input(),
                    self.gathered(node),
                ),
            decreases self.tokens.len() - self.current,
        {
            node.add(self.parse_var_declaration()?);
        }
        let ghost fourth = self.gathered(node);
        while self.check_value(&TokenType::Keyword, "prosedur") || self.check_value(
            &TokenType::Keyword,
            "fungsi",
        )
            invariant
                self.in_progress(old(self), node, Label::DeclarationPart),
                grammar::subprogram_sections(self.input(), fourth)
                    == grammar::subprogram_sections(self.input(), self.gathered(node)),
            decreases self.tokens.len() - self.current,
        {
            node.add(self.parse_subprogram_declaration()?);
        }
        Ok(node)
    }

    #[verifier::loop_isolation(false)]
    pub(super) fn parse_const_declaration(&mut self) -> (r: ParseResult)
        ensures
            final(self).yields(
                old(self),
                r,
                grammar::const_declaration(old(self).input(), old(self).current as int),
            ),
            r is Ok ==> final(self).current > old(self).current,
    {
        proof {
            use_type_invariant(&*self);
            reveal(grammar::const_declaration);
            reveal(grammar::const_items);
        }
        let mut node = ParseNode::new(NodeType::ConstDeclaration);
        node.add(self.consume_keyword("konstanta", "Expected 'konstanta' keyword.")?);
        let ghost first = self.gathered(node);
        loop
            invariant
                self.in_progress(old(self), node, Label::ConstDeclaration),
                self.current > old(self).current,
                grammar::const_items(self.input(), first) == grammar::const_items(
                    self.input(),
                    self.gathered(node),
                ),
            decreases self.tokens.len() - self.current,
        {
            node.add(self.consume(TokenType::Identifier, "Expected constant identifier.")?);
            node.add(self.consume(
                TokenType::RelationalOperator,
                "Expected '=' in constant declaration.",
            )?);
            node.add(self.parse_expression()?);
            node.add(self.consume(TokenType::Semicolon, "Expected ';' after constant declaration.")?);
            if !self.check(&TokenType::Identifier) {
                break ;
            }
        }
        Ok(node)
    }

    #[verifier::loop_isolation(false)]
    pub(super) fn parse_type_declaration(&mut self) -> (r: ParseResult)
        ensures
            final(self).yields(
                old(self),
                r,
                grammar::type_declaration(old(self).input(), old(self).current as int),
            ),
            r is Ok ==> final(self).current > old(self).current,
    {
        proof {
            use_type_invariant(&*self);
            reveal(grammar::type_declaration);
            reveal(grammar::type_items);
        }
        let mut node = ParseNode::new(NodeType::TypeDeclaration);
        node.add(self.consume_keyword("tipe", "Expected 'tipe' keyword.")?);
        let ghost first = self.gathered(node);
        loop
            invariant
                self.in_progress(old(self), node, Label::TypeDeclaration),
                self.current > old(self).current,
                grammar::type_items(self.input(), first) == grammar::type_items(
                    self.input(),
                    self.gathered(node),
                ),
            decreases self.tokens.len() - self.current,
        {
            node.add(self.consume(TokenType::Identifier, "Expected type identifier.")?);
            node.add(self.consume(TokenType::RelationalOperator, "Expected '=' in type declaration.")?);
            node.add(self.parse_type()?);
            node.add(self.consume(TokenType::Semicolon, "Expected ';' after type declaration.")?);
            if !self.check(&TokenType::Identifier) {
                break ;
            }
        }
        Ok(node)
    }

    #[verifier::loop_isolation(false)]
    pub(super) fn parse_var_declaration(&mut self) -> (r: ParseResult)
        ensures
            final(self).yields(
                old(self),
                r,
                grammar::var_declaration(old(self).input(), old(self).current as int),
            ),
            r is Ok ==> final(self).current > old(self).current,
    {
        proof {
            use_type_invariant(&*self);
            reveal(grammar::var_declaration);
            reveal(grammar::var_items);
        }
        let mut node = ParseNode::new(NodeType::VarDeclaration);
        node.add(self.consume_keyword("variabel", "Expected 'variabel' keyword.")?);
        let ghost first = self.gathered(node);
        loop
            invariant
                self.in_progress(old(self), node, Label::VarDeclaration),
                self.current > old(self).current,
                grammar::var_items(self.input(), first) == grammar::var_items(
                    self.input(),
                    self.gathered(node),
                ),
            decreases self.tokens.len() - self.current,
        {
            node.add(self.parse_identifier_list()?);
            node.add(self.consume(TokenType::Colon, "Expected ':' after identifier list.")?);
            node.add(self.parse_type()?);
            node.add(self.consume(TokenType::Semicolon, "Expected ';' after variable declaration.")?);
            if !self.check(&TokenType::Identifier) {
                break ;
            }
        }
        Ok(node)
    }

    #[verifier::loop_isolation(false)]
    pub(super) fn parse_identifier_list(&mut self) -> (r: ParseResult)
        ensures
            final(self).yields(
                old(self),
                r,
                grammar::identifier_list(old(self).input(), old(self).current as int),
            ),
    {
        proof {
            use_type_invariant(&*self);
            reveal(grammar::identifier_list);
            reveal(grammar::more_identifiers);
        }
        let mut node = ParseNode::new(NodeType::IdentifierList);
        node.add(self.consume(TokenType::Identifier, "Expected identifier.")?);
        let ghost first = self.gathered(node);
        while self.match_token(&TokenType::Comma)
            invariant
                self.in_progress(old(self), node, Label::IdentifierList),
                grammar::more_identifiers(self.input(), first) == grammar::more_identifiers(
                    self.input(),
                    self.gathered(node),
                ),
            decreases self.tokens.len() - self.current,
        {
            node.add(ParseNode::new_terminal(self.previous()));
            node.add(self.consume(TokenType::Identifier, "Expected identifier after ','.")?);
        }
        Ok(node)
    }

    pub(super) fn parse_type(&mut self) -> (r: ParseResult)
        ensures
            final(self).yields(
                old(self),
                r,
                grammar::type_(old(self).input(), old(self).current as int),
            ),
        decreases old(self).tokens.len() - old(self).current, 2nat,
    {
        proof {
            use_type_invariant(&*self);
            reveal(grammar::type_);
            reveal(grammar::array_type);
            reveal(grammar::record_type);
        }
        let mut node = ParseNode::new(NodeType::Type);
        if self.check_value(&TokenType::Keyword, "larik") {
            node.add(self.parse_array_type()?);
        } else if self.check_value(&TokenType::Keyword, "rekaman") {
            node.add(self.parse_record_type()?);
        } else if self.check_value(&TokenType::Keyword, "integer") || self.check_value(
            &TokenType::Keyword,
            "real",
        ) || self.check_value(&TokenType::Keyword, "boolean") || self.check_value(
            &TokenType::Keyword,
            "char",
        ) {
            node.add(self.take());
        } else if self.check(&TokenType::Identifier) {
            node.add(self.take());
        } else {
            return Err(self.fail("Expected type name."));
        }
        Ok(node)
    }

    #[verifier::loop_isolation(false)]
    pub(super) fn parse_array_type(&mut self) -> (r: ParseResult)
        ensures
            final(self).yields(
                old(self),
                r,
                grammar::array_type(old(self).input(), old(self).current as int),
            ),
        decreases old(self).tokens.len() - old(self).current, 1nat,
    {
        proof {
            use_type_invariant(&*self);
            reveal(grammar::array_type);
            reveal(grammar::more_ranges);
            reveal(grammar::type_);
        }
        let mut node = ParseNode::new(NodeType::ArrayType);
        node.add(self.consume_keyword("larik", "Expected 'larik' keyword.")?);
        node.add(self.consume(TokenType::LBracket, "Expected '[' after 'larik'.")?);
        node.add(self.parse_range()?);
        let ghost first = self.gathered(node);
        while self.match_token(&TokenType::Comma)
            invariant
                self.in_progress(old(self), node, Label::ArrayType),
                grammar::more_ranges(self.input(), first) == grammar::more_ranges(
                    self.input(),
                    self.gathered(node),
                ),
            decreases self.tokens.len() - self.current,
        {
            node.add(ParseNode::new_terminal(self.previous()));
            node.add(self.parse_range()?);
        }
        node.add(self.consume(TokenType::RBracket, "Expected ']' after range.")?);
        node.add(self.consume_keyword("dari", "Expected 'dari' keyword.")?);
        node.add(self.parse_type()?);
        Ok(node)
    }

    pub(super) fn parse_range(&mut self) -> (r: ParseResult)
        ensures
            final(self).yields(
                old(self),
                r,
                grammar::range(old(self).input(), old(self).current as int),
            ),
    {
        proof {
            use_type_invariant(&*self);
            reveal(grammar::range);
        }
        let mut node = ParseNode::new(NodeType::Range);
        node.add(self.parse_expression()?);
        node.add(self.consume(TokenType::RangeOperator, "Expected '..' in range.")?);
        node.add(self.parse_expression()?);
        Ok(node)
    }

    #[verifier::loop_isolation(false)]
    pub(super) fn parse_record_type(&mut self) -> (r: ParseResult)
        ensures
            final(self).yields(
                old(self),
                r,
                grammar::record_type(old(self).input(), old(self).current as int),
            ),
        decreases old(self).tokens.len() - old(self).current, 1nat,
    {
        proof {
            use_type_invariant(&*self);
            reveal(grammar::record_type);
            reveal(grammar::record_fields);
            reveal(grammar::type_);
        }
        let mut node = ParseNode::new(NodeType::RecordType);
        node.add(self.consume_keyword("rekaman", "Expected 'rekaman' keyword.")?);
        let ghost first = self.gathered(node);
        loop
            invariant
                self.in_progress(old(self), node, Label::RecordType),
                self.current > old(self).current,
                grammar::record_fields(self.input(), first) == grammar::record_fields(
                    self.input(),
                    self.gathered(node),
                ),
            decreases self.tokens.len() - self.current,
        {
            if self.check_value(&TokenType::Keyword, "selesai") {
                break ;
            }
            node.add(self.parse_identifier_list()?);
            node.add(self.consume(TokenType::Colon, "Expected ':' after field identifiers.")?);
            node.add(self.parse_type()?);
            if self.check_value(&TokenType::Keyword, "selesai") {
                break ;
            }
            if self.match_token(&TokenType::Semicolon) {
                node.add(ParseNode::new_terminal(self.previous()));
            }
        }
        node.add(self.consume_keyword("selesai", "Expected 'selesai' keyword.")?);
        Ok(node)
    }

    pub(super) fn parse_subprogram_declaration(&mut self) -> (r: ParseResult)
        ensures
            final(self).yields(
                old(self),
                r,
                grammar::subprogram_declaration(old(self).input(), old(self).current as int),
            ),
            r is Ok ==> final(self).current > old(self).current,
        decreases old(self).tokens.len() - old(self).current, 2nat,
    {
        proof {
            use_type_invariant(&*self);
            reveal(grammar::subprogram_declaration);
            reveal(grammar::procedure_declaration);
            reveal(grammar::function_declaration);
        }
        let mut node = ParseNode::new(NodeType::SubprogramDeclaration);
        if self.check_value(&TokenType::Keyword, "prosedur") {
            node.add(self.parse_procedure_declaration()?);
        } else if self.check_value(&TokenType::Keyword, "fungsi") {
            node.add(self.parse_function_declaration()?);
        } else {
            return Err(self.fail("Expected 'prosedur' or 'fungsi' keyword."));
        }
        Ok(node)
    }

    pub(super) fn parse_procedure_declaration(&mut self) -> (r: ParseResult)
        ensures
            final(self).yields(
                old(self),
                r,
                grammar::procedure_declaration(old(self).input(), old(self).current as int),
            ),
            r is Ok ==> final(self).current > old(self).current,
        decreases old(self).tokens.len() - old(self).current, 1nat,
    {
        proof {
            use_type_invariant(&*self);
            reveal(grammar::procedure_declaration);
            reveal(grammar::declaration_part);
        }
        let mut node = ParseNode::new(NodeType::ProcedureDeclaration);
        node.add(self.consume_keyword("prosedur", "Expected 'prosedur' keyword.")?);
        node.add(self.consume(TokenType::Identifier, "Expected procedure name.")?);
        if self.check(&TokenType::LParenthesis) {
            node.add(self.parse_formal_parameter_list()?);
        }
        node.add(self.consume(TokenType::Semicolon, "Expected ';' after procedure header.")?);
        node.add(self.parse_declaration_part()?);
        node.add(self.parse_compound_statement()?);
        node.add(self.consume(TokenType::Semicolon, "Expected ';' after procedure body.")?);
        Ok(node)
    }

    pub(super) fn parse_function_declaration(&mut self) -> (r: ParseResult)
        ensures
            final(self).yields(
                old(self),
                r,
                grammar::function_declaration(old(self).input(), old(self).current as int),
            ),
            r is Ok ==> final(self).current > old(self).current,
        decreases old(self).tokens.len() - old(self).current, 1nat,
    {
        proof {
            use_type_invariant(&*self);
            reveal(grammar::function_declaration);
            reveal(grammar::declaration_part);
        }
        let mut node = ParseNode::new(NodeType::FunctionDeclaration);
        node.add(self.consume_keyword("fungsi", "Expected 'fungsi' keyword.")?);
        node.add(self.consume(TokenType::Identifier, "Expected function name.")?);
        if self.check(&TokenType::LParenthesis) {
            node.add(self.parse_formal_parameter_list()?);
        }
        node.add(self.consume(TokenType::Colon, "Expected ':' after function parameters.")?);
        node.add(self.parse_type()?);
        node.add(self.consume(TokenType::Semicolon, "Expected ';' after function header.")?);
        node.add(self.parse_declaration_part()?);
        node.add(self.parse_compound_statement()?);
        node.add(self.consume(TokenType::Semicolon, "Expected ';' after function body.")?);
        Ok(node)
    }

    #[verifier::loop_isolation(false)]
    pub(super) fn parse_formal_parameter_list(&mut self) -> (r: ParseResult)
        ensures
            final(self).yields(
                old(self),
                r,
                grammar::formal_parameter_list(old(self).input(), old(self).current as int),
            ),
    {
        proof {
            use_type_invariant(&*self);
            reveal(grammar::formal_parameter_list);
            reveal(grammar::more_parameter_groups);
        }
        let mut node = ParseNode::new(NodeType::FormalParameterList);
        node.add(self.consume(TokenType::LParenthesis, "Expected '(' to start parameter list.")?);
        if self.match_keyword("variabel") {
            node.add(ParseNode::new_terminal(self.previous()));
        }
        node.add(self.parse_identifier_list()?);
        node.add(self.consume(TokenType::Colon, "Expected ':' after parameter identifiers.")?);
        node.add(self.parse_type()?);
        let ghost first = self.gathered(node);
        while self.match_token(&TokenType::Semicolon)
            invariant
                self.in_progress(old(self), node, Label::FormalParameterList),
                grammar::more_parameter_groups(self.input(), first) == grammar::more_parameter_groups(
                    self.input(),
                    self.gathered(node),
                ),
            decreases self.tokens.len() - self.current,
        {
            node.add(ParseNode::new_terminal(self.previous()));
            if self.match_keyword("variabel") {
                node.add(ParseNode::new_terminal(self.previous()));
            }
            node.add(self.parse_identifier_list()?);
            node.add(self.consume(TokenType::Colon, "Expected ':' after parameter identifiers.")?);
            node.add(self.parse_type()?);
        }
        node.add(self.consume(TokenType::RParenthesis, "Expected ')' to end parameter list.")?);
        Ok(node)
    }
}

} // verus!
