//! Statements.

use crate::ast::{ast_view, ast_views, no_nodes, push_node, AstNode};
use crate::node::{NodeType, ParseNode};
use crate::semantic_analyzer::SemanticAnalyzer;
use crate::semantic_error::{SemanticError, SemanticErrorKind};
use crate::semantics;
use crate::text::same_text;
use crate::types::DataType;
use vstd::prelude::*;

verus! {

impl SemanticAnalyzer {
    /// The statement at part `i` of a node, or no node where that part is
    /// missing.
    fn visit_statement_at(&mut self, node: &ParseNode, i: usize) -> (r: AstNode)
        ensures
            (r@, final(self)@) == semantics::statement_at(node@, i as int, old(self)@),
        decreases node@, 0nat, 0nat,
    {
        if i < node.len() {
            self.visit_statement(node.child(i))
        } else {
            AstNode::Empty
        }
    }

    /// The expression at part `i` of a node, or no node where that part is
    /// missing.
    pub(super) fn visit_expression_at(&mut self, node: &ParseNode, i: usize) -> (r: AstNode)
        ensures
            (r@, final(self)@) == semantics::expression_at(node@, i as int, old(self)@),
        decreases node@, 0nat, 0nat,
    {
        if i < node.len() {
            self.visit_expression(node.child(i))
        } else {
            AstNode::Empty
        }
    }

    /// The condition at part `i` of a node; one that is not boolean is
    /// reported and kept.
    fn visit_condition_at(&mut self, node: &ParseNode, i: usize) -> (r: AstNode)
        ensures
            (r@, final(self)@) == semantics::condition_at(node@, i as int, old(self)@),
        decreases node@, 0nat, 1nat,
    {
        let condition = self.visit_expression_at(node, i);
        let cond_type = self.get_expr_type(&condition);
        if !matches!(cond_type, DataType::Boolean) {
            self.report(SemanticError::new(SemanticErrorKind::ConditionNotBoolean, None));
        }
        condition
    }

    pub(super) fn visit_compound_statement(&mut self, node: &ParseNode) -> (r: AstNode)
        ensures
            (r@, final(self)@) == semantics::compound_statement(node@, old(self)@),
        decreases node@, 1nat, 0nat,
    {
        if node.len() >= 2 {
            let statements = self.visit_statement_list(node.child(1));
            AstNode::Block { statements }
        } else {
            AstNode::Empty
        }
    }

    pub(super) fn visit_statement_list(&mut self, node: &ParseNode) -> (r: Vec<AstNode>)
        ensures
            (ast_views(r@), final(self)@) == semantics::statement_list(node@, old(self)@),
        decreases node@, 1nat, 0nat,
    {
        let mut statements = no_nodes();
        let mut i: usize = 0;
        while i < node.len()
            invariant
                semantics::statement_list(node@, old(self)@) == semantics::statements_from(
                    node@,
                    i as int,
                    ast_views(statements@),
                    self@,
                ),
            decreases node@.children.len() - i,
        {
            let child = node.child(i);
            if child.token().is_none() {
                let stmt = self.visit_statement(child);
                if !matches!(stmt, AstNode::Empty) {
                    push_node(&mut statements, stmt);
                }
            }
            i = i + 1;
        }
        statements
    }

    pub(super) fn visit_statement(&mut self, node: &ParseNode) -> (r: AstNode)
        ensures
            (r@, final(self)@) == semantics::statement(node@, old(self)@),
        decreases node@, 3nat, 0nat,
    {
        match node.kind() {
            NodeType::AssignmentStatement => self.visit_assignment_statement(node),
            NodeType::IfStatement => self.visit_if_statement(node),
            NodeType::WhileStatement => self.visit_while_statement(node),
            NodeType::ForStatement => self.visit_for_statement(node),
            NodeType::ProcedureOrFunctionCall => self.visit_procedure_call(node),
            NodeType::CompoundStatement => self.visit_compound_statement(node),
            _ => AstNode::Empty,
        }
    }

    pub(super) fn visit_assignment_statement(&mut self, node: &ParseNode) -> (r: AstNode)
        ensures
            (r@, final(self)@) == semantics::assignment(node@, old(self)@),
        decreases node@, 1nat, 0nat,
    {
        proof {
            reveal_with_fuel(ast_view, 2);
        }
        if node.len() == 0 {
            return AstNode::Empty;
        }
        let var_name = match node.child(0).token() {
            Some(token) => token.value.clone(),
            None => {
                return AstNode::Empty;
            },
        };
        let tab_index = match self.symbol_table.lookup(var_name.as_str()) {
            Some(index) => index,
            None => {
                self.report(SemanticError::undeclared(var_name, None));
                return AstNode::Empty;
            },
        };
        let var_type = self.symbol_table.tab[tab_index].data_type.clone();
        let var_level = self.symbol_table.tab[tab_index].level;
        let target = AstNode::Var {
            name: var_name,
            data_type: var_type.clone(),
            tab_index,
            level: var_level,
        };
        let value = if node.len() > 2 {
            self.visit_expression(node.child(2))
        } else {
            AstNode::Empty
        };
        let value_type = self.get_expr_type(&value);
        if !DataType::can_assign(&var_type, &value_type) {
            self.report(SemanticError::type_mismatch(var_type.name(), value_type.name(), None));
        }
        AstNode::Assign { target: Box::new(target), value: Box::new(value), data_type: var_type }
    }

    pub(super) fn visit_if_statement(&mut self, node: &ParseNode) -> (r: AstNode)
        ensures
            (r@, final(self)@) == semantics::if_statement(node@, old(self)@),
        decreases node@, 1nat, 0nat,
    {
        let condition = self.visit_condition_at(node, 1);
        let then_stmt = self.visit_statement_at(node, 3);
        let else_stmt = if node.len() > 5 {
            Some(Box::new(self.visit_statement_at(node, 5)))
        } else {
            None
        };
        AstNode::If { condition: Box::new(condition), then_stmt: Box::new(then_stmt), else_stmt }
    }

    pub(super) fn visit_while_statement(&mut self, node: &ParseNode) -> (r: AstNode)
        ensures
            (r@, final(self)@) == semantics::while_statement(node@, old(self)@),
        decreases node@, 1nat, 0nat,
    {
        let condition = self.visit_condition_at(node, 1);
        let body = self.visit_statement_at(node, 3);
        AstNode::While { condition: Box::new(condition), body: Box::new(body) }
    }

    pub(super) fn visit_for_statement(&mut self, node: &ParseNode) -> (r: AstNode)
        ensures
            (r@, final(self)@) == semantics::for_statement(node@, old(self)@),
        decreases node@, 1nat, 0nat,
    {
        if node.len() < 2 {
            return AstNode::Empty;
        }
        let var_name = match node.child(1).token() {
            Some(token) => token.value.clone(),
            None => {
                return AstNode::Empty;
            },
        };
        let tab_index = match self.symbol_table.lookup(var_name.as_str()) {
            Some(index) => index,
            None => {
                self.report(SemanticError::undeclared(var_name, None));
                return AstNode::Empty;
            },
        };
        if !matches!(self.symbol_table.tab[tab_index].data_type, DataType::Integer) {
            self.report(SemanticError::new(SemanticErrorKind::InvalidLoopVariable, None));
        }
        let start = self.visit_expression_at(node, 3);
        let is_downto = node.len() > 4 && match node.child(4).token() {
            Some(token) => same_text(token.value.as_str(), "turun_ke"),
            None => false,
        };
        let end = self.visit_expression_at(node, 5);
        let body = self.visit_statement_at(node, 7);
        AstNode::For {
            var_name,
            start: Box::new(start),
            end: Box::new(end),
            is_downto,
            body: Box::new(body),
            tab_index,
        }
    }
}

} // verus!
