//! Declarations and types.

use crate::ast::{append_nodes, ast_views, no_nodes, push_node, texts, AstNode, AstView};
use crate::node::{NodeType, ParseNode};
use crate::semantic_analyzer::{
    ahead, array_size, is_leaf_with, new_entry, one_index, one_name, SemanticAnalyzer,
};
use crate::semantic_error::{SemanticError, SemanticErrorKind};
use crate::semantics;
use crate::symbol_table::ATabEntry;
use crate::types::{DataType, ObjectKind};
use vstd::prelude::*;

verus! {

/// The view of an index that may be absent.
pub open spec fn index_view(i: Option<usize>) -> Option<int> {
    match i {
        Some(i) => Some(i as int),
        None => None,
    }
}

/// The view of a node that may be absent.
pub open spec fn node_view(node: Option<AstNode>) -> Option<AstView> {
    match node {
        Some(node) => Some(node@),
        None => None,
    }
}

impl SemanticAnalyzer {
    /// The type at part `i` of a node, or no type where that part is
    /// missing.
    fn visit_type_at(&mut self, node: &ParseNode, i: usize) -> (r: DataType)
        ensures
            (r@, final(self)@) == semantics::type_at(node@, i as int, old(self)@),
        decreases node@, 0nat, 0nat,
    {
        if i < node.len() {
            self.get_type(node.child(i))
        } else {
            DataType::Unknown
        }
    }

    /// The bounds of a range.
    pub fn get_range(&mut self, node: &ParseNode) -> (r: (i32, i32))
        ensures
            (r.0, r.1, final(self)@) == semantics::range(node@, old(self)@),
        decreases node@, 1nat, 0nat,
    {
        let low_expr = self.visit_expression_at(node, 0);
        let high_expr = self.visit_expression_at(node, 2);
        let low = match self.get_literal_int(&low_expr) {
            Some(v) => v,
            None => 0,
        };
        let high = match self.get_literal_int(&high_expr) {
            Some(v) => v,
            None => 0,
        };
        if low > high {
            self.report(SemanticError::new(SemanticErrorKind::InvalidArrayBounds, None));
        }
        (low, high)
    }

    /// The array type whose first range is part `k` of an array node.
    fn array_from(&mut self, node: &ParseNode, k: usize) -> (r: DataType)
        ensures
            (r@, final(self)@) == semantics::array_from(node@, k as int, old(self)@),
        decreases node@, 0nat, semantics::parts_left(node@, k as int),
    {
        if k >= node.len() {
            return DataType::Unknown;
        }
        let (low, high) = self.get_range(node.child(k));
        let element_type = if node.len() - k > 2 && is_leaf_with(node.child(k + 1), ",") {
            self.array_from(node, k + 2)
        } else if node.len() - k > 3 {
            self.get_type(node.child(k + 3))
        } else {
            DataType::Unknown
        };
        let index = self.symbol_table.insert_array(
            ATabEntry {
                index_type: DataType::Integer,
                element_type,
                element_ref: None,
                low_bound: low,
                high_bound: high,
                element_size: 1,
                total_size: array_size(low, high),
            },
        );
        DataType::Array(index)
    }

    /// The type that a type node stands for.
    pub fn get_type(&mut self, node: &ParseNode) -> (r: DataType)
        ensures
            (r@, final(self)@) == semantics::get_type(node@, old(self)@),
        decreases node@, 1nat, 0nat,
    {
        if node.len() == 0 {
            return DataType::Unknown;
        }
        let child = node.child(0);
        match child.kind() {
            NodeType::Terminal(token) => self.named_type(token.value.as_str()),
            NodeType::ArrayType => self.array_from(child, 2),
            _ => DataType::Unknown,
        }
    }

    /// Declares variables of one type, each with a node of its own.
    fn declare_variables(
        &mut self,
        names: &Vec<String>,
        data_type: &DataType,
        level: usize,
        declarations: &mut Vec<AstNode>,
    )
        ensures
            (ast_views(final(declarations)@), final(self)@) == semantics::declare_variables(
                texts(names@),
                0,
                data_type@,
                level,
                ast_views(old(declarations)@),
                old(self)@,
            ),
    {
        let mut k: usize = 0;
        while k < names.len()
            invariant
                semantics::declare_variables(
                    texts(names@),
                    0,
                    data_type@,
                    level,
                    ast_views(old(declarations)@),
                    old(self)@,
                ) == semantics::declare_variables(
                    texts(names@),
                    k as int,
                    data_type@,
                    level,
                    ast_views(declarations@),
                    self@,
                ),
            decreases names.len() - k,
        {
            let name = &names[k];
            if self.symbol_table.lookup_current_scope(name.as_str()).is_some() {
                self.report(SemanticError::redeclared(name.clone(), None));
            } else {
                let tab_index = self.symbol_table.insert(
                    new_entry(name.clone(), ObjectKind::Variable, data_type.clone(), None, level),
                );
                push_node(
                    declarations,
                    AstNode::VarDecl {
                        names: one_name(name.clone()),
                        data_type: data_type.clone(),
                        tab_indices: one_index(tab_index),
                        level,
                    },
                );
                self.symbol_table.add_var_size(1);
            }
            k = k + 1;
        }
    }

    pub(super) fn visit_var_declaration(&mut self, node: &ParseNode) -> (r: Vec<AstNode>)
        ensures
            (ast_views(r@), final(self)@) == semantics::var_declaration(node@, old(self)@),
        decreases node@, 1nat, 0nat,
    {
        let mut declarations = no_nodes();
        let mut i: usize = 1;
        while i < node.len()
            invariant
                semantics::var_declaration(node@, old(self)@) == semantics::var_groups(
                    node@,
                    i as int,
                    ast_views(declarations@),
                    self@,
                ),
            decreases semantics::parts_left(node@, i as int),
        {
            proof {
                reveal_with_fuel(semantics::var_groups, 2);
            }
            let id_list = self.get_identifier_list(node.child(i));
            let data_type = self.visit_type_at(node, ahead(i, 2));
            let level = self.symbol_table.current_level();
            self.declare_variables(&id_list, &data_type, level, &mut declarations);
            i = ahead(i, 4);
        }
        declarations
    }

    pub(super) fn visit_const_declaration(&mut self, node: &ParseNode) -> (r: Vec<AstNode>)
        ensures
            (ast_views(r@), final(self)@) == semantics::const_declaration(node@, old(self)@),
        decreases node@, 1nat, 0nat,
    {
        let mut declarations = no_nodes();
        let mut i: usize = 1;
        while i < node.len()
            invariant
                semantics::const_declaration(node@, old(self)@) == semantics::const_items(
                    node@,
                    i as int,
                    ast_views(declarations@),
                    self@,
                ),
            decreases semantics::parts_left(node@, i as int),
        {
            proof {
                reveal_with_fuel(semantics::const_items, 2);
            }
            match node.child(i).token() {
                None => {
                    i = i + 1;
                },
                Some(token) => {
                    let name = token.value.clone();
                    let value_expr = self.visit_expression_at(node, ahead(i, 2));
                    let data_type = self.get_expr_type(&value_expr);
                    i = ahead(i, 4);
                    if self.symbol_table.lookup_current_scope(name.as_str()).is_some() {
                        self.report(SemanticError::redeclared(name, None));
                    } else {
                        let level = self.symbol_table.current_level();
                        let tab_index = self.symbol_table.insert(
                            new_entry(
                                name.clone(),
                                ObjectKind::Constant,
                                data_type.clone(),
                                None,
                                level,
                            ),
                        );
                        push_node(
                            &mut declarations,
                            AstNode::ConstDecl {
                                name,
                                value: Box::new(value_expr),
                                data_type,
                                tab_index,
                            },
                        );
                    }
                },
            }
        }
        declarations
    }

    pub(super) fn visit_type_declaration(&mut self, node: &ParseNode) -> (r: Vec<AstNode>)
        ensures
            (ast_views(r@), final(self)@) == semantics::type_declaration(node@, old(self)@),
        decreases node@, 1nat, 0nat,
    {
        let mut declarations = no_nodes();
        let mut i: usize = 1;
        while i < node.len()
            invariant
                semantics::type_declaration(node@, old(self)@) == semantics::type_items(
                    node@,
                    i as int,
                    ast_views(declarations@),
                    self@,
                ),
            decreases semantics::parts_left(node@, i as int),
        {
            proof {
                reveal_with_fuel(semantics::type_items, 2);
            }
            match node.child(i).token() {
                None => {
                    i = i + 1;
                },
                Some(token) => {
                    let name = token.value.clone();
                    let type_def = self.visit_type_at(node, ahead(i, 2));
                    i = ahead(i, 4);
                    if self.symbol_table.lookup_current_scope(name.as_str()).is_some() {
                        self.report(SemanticError::redeclared(name, None));
                    } else {
                        let level = self.symbol_table.current_level();
                        let tab_index = self.symbol_table.insert(
                            new_entry(name.clone(), ObjectKind::Type, type_def.clone(), None, level),
                        );
                        push_node(&mut declarations, AstNode::TypeDecl { name, type_def, tab_index });
                    }
                },
            }
        }
        declarations
    }

    /// Declares parameters of one type and gives their indices.
    fn declare_parameters(&mut self, names: &Vec<String>, data_type: &DataType) -> (r: Vec<usize>)
        ensures
            (r@, final(self)@) == semantics::declare_parameters(
                texts(names@),
                0,
                data_type@,
                Seq::empty(),
                old(self)@,
            ),
    {
        let mut tab_indices: Vec<usize> = Vec::new();
        let mut k: usize = 0;
        while k < names.len()
            invariant
                semantics::declare_parameters(
                    texts(names@),
                    0,
                    data_type@,
                    Seq::empty(),
                    old(self)@,
                ) == semantics::declare_parameters(
                    texts(names@),
                    k as int,
                    data_type@,
                    tab_indices@,
                    self@,
                ),
            decreases names.len() - k,
        {
            let level = self.symbol_table.current_level();
            let tab_index = self.symbol_table.insert(
                new_entry(names[k].clone(), ObjectKind::Parameter, data_type.clone(), None, level),
            );
            tab_indices.push(tab_index);
            k = k + 1;
        }
        tab_indices
    }

    pub(super) fn visit_formal_parameter_list(&mut self, node: &ParseNode) -> (r: Vec<AstNode>)
        ensures
            (ast_views(r@), final(self)@) == semantics::formal_parameter_list(node@, old(self)@),
        decreases node@, 1nat, 0nat,
    {
        let mut params = no_nodes();
        let mut i: usize = 1;
        while node.len() >= 2 && i <= node.len() - 2
            invariant
                semantics::formal_parameter_list(node@, old(self)@) == semantics::parameter_groups(
                    node@,
                    i as int,
                    ast_views(params@),
                    self@,
                ),
            decreases semantics::parts_left(node@, i as int),
        {
            proof {
                reveal_with_fuel(semantics::parameter_groups, 2);
            }
            let j = if is_leaf_with(node.child(i), "variabel") {
                i + 1
            } else {
                i
            };
            let id_list = self.get_identifier_list(node.child(j));
            let data_type = self.visit_type_at(node, ahead(j, 2));
            let tab_indices = self.declare_parameters(&id_list, &data_type);
            push_node(
                &mut params,
                AstNode::ParamDecl { names: id_list, data_type, is_var: false, tab_indices },
            );
            i = if ahead(j, 4) < node.len() && node.child(j + 3).token().is_some() {
                j + 4
            } else {
                ahead(j, 3)
            };
        }
        params
    }

    /// The parameters, declarations and body of a subprogram, worked out
    /// inside its block.
    fn visit_subprogram_parts(&mut self, node: &ParseNode, params: Option<usize>, rest: usize) -> (r:
        (Vec<AstNode>, Vec<AstNode>, AstNode))
        requires
            rest < 10,
        ensures
            (ast_views(r.0@), ast_views(r.1@), r.2@, final(self)@) == semantics::subprogram_parts(
                node@,
                index_view(params),
                rest as int,
                old(self)@,
            ),
        decreases node@, 0nat, 0nat,
    {
        let parameters = match params {
            Some(p) => {
                if p < node.len() {
                    self.visit_formal_parameter_list(node.child(p))
                } else {
                    no_nodes()
                }
            },
            None => no_nodes(),
        };
        let declarations = if rest < node.len() {
            self.visit_declaration_part(node.child(rest))
        } else {
            no_nodes()
        };
        let body = if rest + 1 < node.len() {
            self.visit_compound_statement(node.child(rest + 1))
        } else {
            AstNode::Empty
        };
        (parameters, declarations, body)
    }

    /// The name of a subprogram.
    fn subprogram_name(node: &ParseNode) -> (r: String)
        ensures
            r@ == semantics::subprogram_name(node@),
    {
        if node.len() > 1 {
            match node.child(1).token() {
                Some(token) => token.value.clone(),
                None => "unknown".to_string(),
            }
        } else {
            "unknown".to_string()
        }
    }

    /// Whether a subprogram declaration has a formal parameter list.
    fn has_parameters(node: &ParseNode) -> (r: bool)
        ensures
            r == semantics::has_parameters(node@),
    {
        node.len() > 2 && matches!(node.child(2).kind(), NodeType::FormalParameterList)
    }

    pub(super) fn visit_procedure_declaration(&mut self, node: &ParseNode) -> (r: AstNode)
        ensures
            (r@, final(self)@) == semantics::procedure_declaration(node@, old(self)@),
        decreases node@, 1nat, 0nat,
    {
        let name = Self::subprogram_name(node);
        if self.symbol_table.lookup_current_scope(name.as_str()).is_some() {
            self.report(SemanticError::redeclared(name.clone(), None));
        }
        let block_index = self.symbol_table.enter_block();
        self.symbol_table.exit_block();
        let level = self.symbol_table.current_level();
        let tab_index = self.symbol_table.insert(
            new_entry(
                name.clone(),
                ObjectKind::Procedure,
                DataType::Void,
                Some(block_index),
                level,
            ),
        );
        self.symbol_table.reenter_block(block_index);
        let (params, declarations, body) = if Self::has_parameters(node) {
            self.visit_subprogram_parts(node, Some(2), 4)
        } else {
            self.visit_subprogram_parts(node, None, 3)
        };
        self.symbol_table.exit_block();
        AstNode::ProcDecl {
            name,
            params,
            declarations,
            body: Box::new(body),
            tab_index,
            block_index,
        }
    }

    pub(super) fn visit_function_declaration(&mut self, node: &ParseNode) -> (r: AstNode)
        ensures
            (r@, final(self)@) == semantics::function_declaration(node@, old(self)@),
        decreases node@, 1nat, 0nat,
    {
        let name = Self::subprogram_name(node);
        if self.symbol_table.lookup_current_scope(name.as_str()).is_some() {
            self.report(SemanticError::redeclared(name.clone(), None));
        }
        let block_index = self.symbol_table.enter_block();
        let has_params = Self::has_parameters(node);
        let at: usize = if has_params {
            4
        } else {
            3
        };
        let return_type = self.visit_type_at(node, at);
        self.symbol_table.exit_block();
        let level = self.symbol_table.current_level();
        let tab_index = self.symbol_table.insert(
            new_entry(
                name.clone(),
                ObjectKind::Function,
                return_type.clone(),
                Some(block_index),
                level,
            ),
        );
        self.symbol_table.reenter_block(block_index);
        let (params, declarations, body) = if has_params {
            self.visit_subprogram_parts(node, Some(2), at + 2)
        } else {
            self.visit_subprogram_parts(node, None, at + 2)
        };
        self.symbol_table.exit_block();
        AstNode::FuncDecl {
            name,
            params,
            return_type,
            declarations,
            body: Box::new(body),
            tab_index,
            block_index,
        }
    }

    pub(super) fn visit_subprogram_declaration(&mut self, node: &ParseNode) -> (r: Option<AstNode>)
        ensures
            (node_view(r), final(self)@) == semantics::subprogram_declaration(node@, old(self)@),
        decreases node@, 1nat, 0nat,
    {
        if node.len() == 0 {
            return None;
        }
        let child = node.child(0);
        match child.kind() {
            NodeType::ProcedureDeclaration => Some(self.visit_procedure_declaration(child)),
            NodeType::FunctionDeclaration => Some(self.visit_function_declaration(child)),
            _ => None,
        }
    }

    pub(super) fn visit_declaration_part(&mut self, node: &ParseNode) -> (r: Vec<AstNode>)
        ensures
            (ast_views(r@), final(self)@) == semantics::declaration_part(node@, old(self)@),
        decreases node@, 1nat, 0nat,
    {
        let mut declarations = no_nodes();
        let mut i: usize = 0;
        while i < node.len()
            invariant
                semantics::declaration_part(node@, old(self)@) == semantics::declarations_from(
                    node@,
                    i as int,
                    ast_views(declarations@),
                    self@,
                ),
            decreases node@.children.len() - i,
        {
            let child = node.child(i);
            match child.kind() {
                NodeType::ConstDeclaration => {
                    let more = self.visit_const_declaration(child);
                    append_nodes(&mut declarations, more);
                },
                NodeType::TypeDeclaration => {
                    let more = self.visit_type_declaration(child);
                    append_nodes(&mut declarations, more);
                },
                NodeType::VarDeclaration => {
                    let more = self.visit_var_declaration(child);
                    append_nodes(&mut declarations, more);
                },
                NodeType::SubprogramDeclaration => {
                    match self.visit_subprogram_declaration(child) {
                        Some(decl) => {
                            push_node(&mut declarations, decl);
                        },
                        None => {},
                    }
                },
                _ => {},
            }
            i = i + 1;
        }
        declarations
    }
}

} // verus!
