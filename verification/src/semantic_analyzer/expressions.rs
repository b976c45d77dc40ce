//! Expressions and calls.

use crate::ast::{ast_views, no_nodes, push_node, AstNode, LiteralValue};
use crate::node::{NodeType, ParseNode};
use crate::semantic_analyzer::{boolean_literal, first_char, number_literal, SemanticAnalyzer};
use crate::semantic_error::SemanticError;
use crate::semantics;
use crate::text::same_text;
use crate::token::TokenType;
use crate::types::DataType;
use vstd::prelude::*;

verus! {

impl SemanticAnalyzer {
    pub(super) fn visit_factor(&mut self, node: &ParseNode) -> (r: AstNode)
        ensures
            (r@, final(self)@) == semantics::factor(node@, old(self)@),
        decreases node@, 1nat, 0nat,
    {
        if node.len() == 0 {
            return AstNode::Empty;
        }
        let child = node.child(0);
        match child.kind() {
            NodeType::Terminal(token) => match token.token_type {
                TokenType::Number => number_literal(token.value.as_str()),
                TokenType::CharLiteral => AstNode::Literal {
                    value: LiteralValue::Char(first_char(token.value.as_str())),
                    data_type: DataType::Char,
                },
                TokenType::StringLiteral => AstNode::Literal {
                    value: LiteralValue::String(token.value.clone()),
                    data_type: DataType::String,
                },
                TokenType::Identifier => self.variable(token.value.as_str()),
                TokenType::Keyword => boolean_literal(token.value.as_str()),
                TokenType::LogicalOperator => {
                    if same_text(token.value.as_str(), "tidak") && node.len() > 1 {
                        let operand = self.visit_factor(node.child(1));
                        let op_type = self.get_expr_type(&operand);
                        if !matches!(op_type, DataType::Boolean) {
                            self.report(
                                SemanticError::invalid_operation(
                                    "tidak".to_string(),
                                    op_type.name(),
                                    None,
                                ),
                            );
                        }
                        AstNode::UnaryOp {
                            op: "tidak".to_string(),
                            operand: Box::new(operand),
                            data_type: DataType::Boolean,
                        }
                    } else {
                        AstNode::Empty
                    }
                },
                TokenType::LParenthesis => {
                    if node.len() > 1 {
                        self.visit_expression(node.child(1))
                    } else {
                        AstNode::Empty
                    }
                },
                _ => AstNode::Empty,
            },
            NodeType::ProcedureOrFunctionCall => self.visit_procedure_call(child),
            _ => AstNode::Empty,
        }
    }

    pub(super) fn visit_term(&mut self, node: &ParseNode) -> (r: AstNode)
        ensures
            (r@, final(self)@) == semantics::term(node@, old(self)@),
        decreases node@, 1nat, 0nat,
    {
        if node.len() == 0 {
            return AstNode::Empty;
        }
        let mut result = self.visit_factor(node.child(0));
        let mut i: usize = 1;
        while i < node.len()
            invariant
                semantics::term(node@, old(self)@) == semantics::more_factors(
                    node@,
                    i as int,
                    result@,
                    self@,
                ),
            decreases node@.children.len() - i,
        {
            match node.child(i).token() {
                Some(token) => {
                    i = i + 1;
                    if i < node.len() {
                        let right = self.visit_factor(node.child(i));
                        i = i + 1;
                        let left = result;
                        let left_type = self.get_expr_type(&left);
                        let right_type = self.get_expr_type(&right);
                        let result_type = self.combine(
                            token.value.as_str(),
                            "dan",
                            &left_type,
                            &right_type,
                        );
                        result = AstNode::BinOp {
                            op: token.value.clone(),
                            left: Box::new(left),
                            right: Box::new(right),
                            data_type: result_type,
                        };
                    }
                },
                None => {
                    i = i + 1;
                },
            }
        }
        result
    }

    pub(super) fn visit_simple_expression(&mut self, node: &ParseNode) -> (r: AstNode)
        ensures
            (r@, final(self)@) == semantics::simple_expression(node@, old(self)@),
        decreases node@, 1nat, 0nat,
    {
        if node.len() == 0 {
            return AstNode::Empty;
        }
        let mut i: usize = 1;
        let minus = match node.child(0).token() {
            Some(token) => same_text(token.value.as_str(), "-"),
            None => false,
        };
        let plus = match node.child(0).token() {
            Some(token) => same_text(token.value.as_str(), "+"),
            None => false,
        };
        let mut result = if minus || plus {
            i = 2;
            let operand = if node.len() > 1 {
                self.visit_term(node.child(1))
            } else {
                AstNode::Empty
            };
            if minus {
                let op_type = self.get_expr_type(&operand);
                AstNode::UnaryOp { op: "-".to_string(), operand: Box::new(operand), data_type: op_type }
            } else {
                operand
            }
        } else {
            self.visit_term(node.child(0))
        };
        while i < node.len()
            invariant
                semantics::simple_expression(node@, old(self)@) == semantics::more_terms(
                    node@,
                    i as int,
                    result@,
                    self@,
                ),
            decreases node@.children.len() - i,
        {
            match node.child(i).token() {
                Some(token) => {
                    i = i + 1;
                    if i < node.len() {
                        let right = self.visit_term(node.child(i));
                        i = i + 1;
                        let left = result;
                        let left_type = self.get_expr_type(&left);
                        let right_type = self.get_expr_type(&right);
                        let result_type = self.combine(
                            token.value.as_str(),
                            "atau",
                            &left_type,
                            &right_type,
                        );
                        result = AstNode::BinOp {
                            op: token.value.clone(),
                            left: Box::new(left),
                            right: Box::new(right),
                            data_type: result_type,
                        };
                    }
                },
                None => {
                    i = i + 1;
                },
            }
        }
        result
    }

    pub(super) fn visit_expression(&mut self, node: &ParseNode) -> (r: AstNode)
        ensures
            (r@, final(self)@) == semantics::expression(node@, old(self)@),
        decreases node@, 1nat, 0nat,
    {
        if node.len() == 1 {
            self.visit_simple_expression(node.child(0))
        } else if node.len() == 3 {
            let left = self.visit_simple_expression(node.child(0));
            let op = match node.child(1).token() {
                Some(token) => token.value.clone(),
                None => "=".to_string(),
            };
            let right = self.visit_simple_expression(node.child(2));
            let left_type = self.get_expr_type(&left);
            let right_type = self.get_expr_type(&right);
            let result_type = match DataType::get_relational_result_type(&left_type, &right_type) {
                Ok(t) => t,
                Err(_) => {
                    self.report(
                        SemanticError::invalid_operation(
                            op.clone(),
                            Self::both_types(&left_type, &right_type),
                            None,
                        ),
                    );
                    DataType::Boolean
                },
            };
            AstNode::BinOp {
                op,
                left: Box::new(left),
                right: Box::new(right),
                data_type: result_type,
            }
        } else {
            AstNode::Empty
        }
    }

    /// The index of the first part that is a parameter list.
    fn parameter_list_position(node: &ParseNode) -> (r: Option<usize>)
        ensures
            match r {
                Some(k) => semantics::parameter_list_index(node@, 0) == Some(k as int) && k
                    < node@.children.len(),
                None => semantics::parameter_list_index(node@, 0) is None,
            },
    {
        let mut i: usize = 0;
        while i < node.len()
            invariant
                semantics::parameter_list_index(node@, 0) == semantics::parameter_list_index(
                    node@,
                    i as int,
                ),
            decreases node@.children.len() - i,
        {
            if matches!(node.child(i).kind(), NodeType::ParameterList) {
                return Some(i);
            }
            i = i + 1;
        }
        None
    }

    pub(super) fn visit_procedure_call(&mut self, node: &ParseNode) -> (r: AstNode)
        ensures
            (r@, final(self)@) == semantics::procedure_call(node@, old(self)@),
        decreases node@, 1nat, 0nat,
    {
        if node.len() == 0 {
            return AstNode::Empty;
        }
        let name = match node.child(0).token() {
            Some(token) => token.value.clone(),
            None => {
                return AstNode::Empty;
            },
        };
        let tab_index = match self.symbol_table.lookup(name.as_str()) {
            Some(index) => index,
            None => {
                self.report(SemanticError::undeclared(name, None));
                return AstNode::Empty;
            },
        };
        let args = if node.len() > 2 {
            match Self::parameter_list_position(node) {
                Some(index) => self.visit_parameter_list(node.child(index)),
                None => no_nodes(),
            }
        } else {
            no_nodes()
        };
        AstNode::ProcCall { name, args, tab_index }
    }

    pub(super) fn visit_parameter_list(&mut self, node: &ParseNode) -> (r: Vec<AstNode>)
        ensures
            (ast_views(r@), final(self)@) == semantics::parameter_list(node@, old(self)@),
        decreases node@, 1nat, 0nat,
    {
        let mut args = no_nodes();
        let mut i: usize = 0;
        while i < node.len()
            invariant
                semantics::parameter_list(node@, old(self)@) == semantics::arguments_from(
                    node@,
                    i as int,
                    ast_views(args@),
                    self@,
                ),
            decreases node@.children.len() - i,
        {
            let child = node.child(i);
            if matches!(child.kind(), NodeType::Expression) {
                let arg = self.visit_expression(child);
                push_node(&mut args, arg);
            }
            i = i + 1;
        }
        args
    }
}

} // verus!
