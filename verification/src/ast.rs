//! The decorated tree: one node for every construct of the program, with
//! the types that were worked out and the indices of the identifiers in the
//! symbol table.

use crate::types::{DataType, DataTypeView};
use vstd::prelude::*;

verus! {

/// The value of a literal. A real number is kept as it was written.
#[derive(Debug)]
pub enum LiteralValue {
    Integer(i64),
    Real(String),
    Boolean(bool),
    Char(char),
    String(String),
}

/// The value of a literal as the contracts see it.
pub enum LiteralView {
    Integer(i64),
    Real(Seq<char>),
    Boolean(bool),
    Char(char),
    String(Seq<char>),
}

impl View for LiteralValue {
    type V = LiteralView;

    open spec fn view(&self) -> LiteralView {
        match *self {
            LiteralValue::Integer(v) => LiteralView::Integer(v),
            LiteralValue::Real(v) => LiteralView::Real(v@),
            LiteralValue::Boolean(v) => LiteralView::Boolean(v),
            LiteralValue::Char(v) => LiteralView::Char(v),
            LiteralValue::String(v) => LiteralView::String(v@),
        }
    }
}

/// A node of the decorated tree.
#[derive(Debug)]
#[allow(inconsistent_fields)]
pub enum AstNode {
    Program { name: String, declarations: Vec<AstNode>, body: Box<AstNode>, tab_index: Option<usize> },
    VarDecl { names: Vec<String>, data_type: DataType, tab_indices: Vec<usize>, level: usize },
    ConstDecl { name: String, value: Box<AstNode>, data_type: DataType, tab_index: usize },
    TypeDecl { name: String, type_def: DataType, tab_index: usize },
    ProcDecl {
        name: String,
        params: Vec<AstNode>,
        declarations: Vec<AstNode>,
        body: Box<AstNode>,
        tab_index: usize,
        block_index: usize,
    },
    FuncDecl {
        name: String,
        params: Vec<AstNode>,
        return_type: DataType,
        declarations: Vec<AstNode>,
        body: Box<AstNode>,
        tab_index: usize,
        block_index: usize,
    },
    ParamDecl { names: Vec<String>, data_type: DataType, is_var: bool, tab_indices: Vec<usize> },
    Block { statements: Vec<AstNode> },
    Assign { target: Box<AstNode>, value: Box<AstNode>, data_type: DataType },
    If { condition: Box<AstNode>, then_stmt: Box<AstNode>, else_stmt: Option<Box<AstNode>> },
    While { condition: Box<AstNode>, body: Box<AstNode> },
    For {
        var_name: String,
        start: Box<AstNode>,
        end: Box<AstNode>,
        is_downto: bool,
        body: Box<AstNode>,
        tab_index: usize,
    },
    ProcCall { name: String, args: Vec<AstNode>, tab_index: usize },
    BinOp { op: String, left: Box<AstNode>, right: Box<AstNode>, data_type: DataType },
    UnaryOp { op: String, operand: Box<AstNode>, data_type: DataType },
    Var { name: String, data_type: DataType, tab_index: usize, level: usize },
    Literal { value: LiteralValue, data_type: DataType },
    /// Stands where a construct gave no node.
    Empty,
}

/// A node of the decorated tree as the contracts see it.
#[allow(inconsistent_fields)]
pub enum AstView {
    Program { name: Seq<char>, declarations: Seq<AstView>, body: Box<AstView>, tab_index: Option<usize> },
    VarDecl { names: Seq<Seq<char>>, data_type: DataTypeView, tab_indices: Seq<usize>, level: usize },
    ConstDecl { name: Seq<char>, value: Box<AstView>, data_type: DataTypeView, tab_index: usize },
    TypeDecl { name: Seq<char>, type_def: DataTypeView, tab_index: usize },
    ProcDecl {
        name: Seq<char>,
        params: Seq<AstView>,
        declarations: Seq<AstView>,
        body: Box<AstView>,
        tab_index: usize,
        block_index: usize,
    },
    FuncDecl {
        name: Seq<char>,
        params: Seq<AstView>,
        return_type: DataTypeView,
        declarations: Seq<AstView>,
        body: Box<AstView>,
        tab_index: usize,
        block_index: usize,
    },
    ParamDecl { names: Seq<Seq<char>>, data_type: DataTypeView, is_var: bool, tab_indices: Seq<usize> },
    Block { statements: Seq<AstView> },
    Assign { target: Box<AstView>, value: Box<AstView>, data_type: DataTypeView },
    If { condition: Box<AstView>, then_stmt: Box<AstView>, else_stmt: Option<Box<AstView>> },
    While { condition: Box<AstView>, body: Box<AstView> },
    For {
        var_name: Seq<char>,
        start: Box<AstView>,
        end: Box<AstView>,
        is_downto: bool,
        body: Box<AstView>,
        tab_index: usize,
    },
    ProcCall { name: Seq<char>, args: Seq<AstView>, tab_index: usize },
    BinOp { op: Seq<char>, left: Box<AstView>, right: Box<AstView>, data_type: DataTypeView },
    UnaryOp { op: Seq<char>, operand: Box<AstView>, data_type: DataTypeView },
    Var { name: Seq<char>, data_type: DataTypeView, tab_index: usize, level: usize },
    Literal { value: LiteralView, data_type: DataTypeView },
    Empty,
}

/// The texts of a list of strings, in order.
pub open spec fn texts(names: Seq<String>) -> Seq<Seq<char>> {
    Seq::new(names.len(), |i: int| names[i]@)
}

/// The views of a row of nodes, in order.
pub open spec fn ast_views(nodes: Seq<AstNode>) -> Seq<AstView>
    decreases nodes,
{
    Seq::new(
        nodes.len(),
        |i: int|
            if 0 <= i < nodes.len() {
                ast_view(nodes[i])
            } else {
                AstView::Empty
            },
    )
}

/// The view of a node and everything below it.
pub open spec fn ast_view(node: AstNode) -> AstView
    decreases node,
{
    match node {
        AstNode::Program { name, declarations, body, tab_index } => AstView::Program {
            name: name@,
            declarations: ast_views(declarations@),
            body: Box::new(ast_view(*body)),
            tab_index,
        },
        AstNode::VarDecl { names, data_type, tab_indices, level } => AstView::VarDecl {
            names: texts(names@),
            data_type: data_type@,
            tab_indices: tab_indices@,
            level,
        },
        AstNode::ConstDecl { name, value, data_type, tab_index } => AstView::ConstDecl {
            name: name@,
            value: Box::new(ast_view(*value)),
            data_type: data_type@,
            tab_index,
        },
        AstNode::TypeDecl { name, type_def, tab_index } => AstView::TypeDecl {
            name: name@,
            type_def: type_def@,
            tab_index,
        },
        AstNode::ProcDecl {
            name,
            params,
            declarations,
            body,
            tab_index,
            block_index,
        } => AstView::ProcDecl {
            name: name@,
            params: ast_views(params@),
            declarations: ast_views(declarations@),
            body: Box::new(ast_view(*body)),
            tab_index,
            block_index,
        },
        AstNode::FuncDecl {
            name,
            params,
            return_type,
            declarations,
            body,
            tab_index,
            block_index,
        } => AstView::FuncDecl {
            name: name@,
            params: ast_views(params@),
            return_type: return_type@,
            declarations: ast_views(declarations@),
            body: Box::new(ast_view(*body)),
            tab_index,
            block_index,
        },
        AstNode::ParamDecl { names, data_type, is_var, tab_indices } => AstView::ParamDecl {
            names: texts(names@),
            data_type: data_type@,
            is_var,
            tab_indices: tab_indices@,
        },
        AstNode::Block { statements } => AstView::Block { statements: ast_views(statements@) },
        AstNode::Assign { target, value, data_type } => AstView::Assign {
            target: Box::new(ast_view(*target)),
            value: Box::new(ast_view(*value)),
            data_type: data_type@,
        },
        AstNode::If { condition, then_stmt, else_stmt } => AstView::If {
            condition: Box::new(ast_view(*condition)),
            then_stmt: Box::new(ast_view(*then_stmt)),
            else_stmt: match else_stmt {
                Some(stmt) => Some(Box::new(ast_view(*stmt))),
                None => None,
            },
        },
        AstNode::While { condition, body } => AstView::While {
            condition: Box::new(ast_view(*condition)),
            body: Box::new(ast_view(*body)),
        },
        AstNode::For { var_name, start, end, is_downto, body, tab_index } => AstView::For {
            var_name: var_name@,
            start: Box::new(ast_view(*start)),
            end: Box::new(ast_view(*end)),
            is_downto,
            body: Box::new(ast_view(*body)),
            tab_index,
        },
        AstNode::ProcCall { name, args, tab_index } => AstView::ProcCall {
            name: name@,
            args: ast_views(args@),
            tab_index,
        },
        AstNode::BinOp { op, left, right, data_type } => AstView::BinOp {
            op: op@,
            left: Box::new(ast_view(*left)),
            right: Box::new(ast_view(*right)),
            data_type: data_type@,
        },
        AstNode::UnaryOp { op, operand, data_type } => AstView::UnaryOp {
            op: op@,
            operand: Box::new(ast_view(*operand)),
            data_type: data_type@,
        },
        AstNode::Var { name, data_type, tab_index, level } => AstView::Var {
            name: name@,
            data_type: data_type@,
            tab_index,
            level,
        },
        AstNode::Literal { value, data_type } => AstView::Literal {
            value: value@,
            data_type: data_type@,
        },
        AstNode::Empty => AstView::Empty,
    }
}

impl View for AstNode {
    type V = AstView;

    open spec fn view(&self) -> AstView {
        ast_view(*self)
    }
}

/// Appends a node to a row of nodes.
pub fn push_node(nodes: &mut Vec<AstNode>, node: AstNode)
    ensures
        ast_views(final(nodes)@) == ast_views(old(nodes)@).push(node@),
{
    nodes.push(node);
    assert(ast_views(nodes@) =~= ast_views(old(nodes)@).push(node@));
}

/// Appends a row of nodes to another.
pub fn append_nodes(nodes: &mut Vec<AstNode>, more: Vec<AstNode>)
    ensures
        ast_views(final(nodes)@) == ast_views(old(nodes)@) + ast_views(more@),
{
    let ghost added = more@;
    let mut more = more;
    nodes.append(&mut more);
    assert(ast_views(nodes@) =~= ast_views(old(nodes)@) + ast_views(added));
}

/// A row of nodes that holds nothing.
pub fn no_nodes() -> (nodes: Vec<AstNode>)
    ensures
        ast_views(nodes@) == Seq::<AstView>::empty(),
{
    let nodes: Vec<AstNode> = Vec::new();
    assert(ast_views(nodes@) =~= Seq::<AstView>::empty());
    nodes
}

} // verus!
