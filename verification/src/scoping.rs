//! What it means for a decorated tree to point into a symbol table: every
//! index of an identifier that a node carries is an index of the identifier
//! table, and every index of a block is an index of the block table.

use crate::ast::AstView;
use crate::symbol_table::{tables_grown, TableView};
use vstd::prelude::*;

verus! {

/// Whether every index in a row of indices is an index of the identifier
/// table.
pub open spec fn all_in_table(indices: Seq<usize>, table: TableView) -> bool {
    forall|k: int| 0 <= k < indices.len() ==> (#[trigger] indices[k]) < table.tab.len()
}

/// Whether every index that a node, or a node below it, carries points into
/// the table.
pub open spec fn indices_hold(node: AstView, table: TableView) -> bool
    decreases node,
{
    match node {
        AstView::Program { declarations, body, tab_index, .. } => {
            &&& tab_index matches Some(index) ==> index < table.tab.len()
            &&& all_hold(declarations, table)
            &&& indices_hold(*body, table)
        },
        AstView::VarDecl { tab_indices, .. } => all_in_table(tab_indices, table),
        AstView::ConstDecl { value, tab_index, .. } => {
            &&& tab_index < table.tab.len()
            &&& indices_hold(*value, table)
        },
        AstView::TypeDecl { tab_index, .. } => tab_index < table.tab.len(),
        AstView::ProcDecl { params, declarations, body, tab_index, block_index, .. } => {
            &&& tab_index < table.tab.len()
            &&& block_index < table.btab.len()
            &&& all_hold(params, table)
            &&& all_hold(declarations, table)
            &&& indices_hold(*body, table)
        },
        AstView::FuncDecl { params, declarations, body, tab_index, block_index, .. } => {
            &&& tab_index < table.tab.len()
            &&& block_index < table.btab.len()
            &&& all_hold(params, table)
            &&& all_hold(declarations, table)
            &&& indices_hold(*body, table)
        },
        AstView::ParamDecl { tab_indices, .. } => all_in_table(tab_indices, table),
        AstView::Block { statements } => all_hold(statements, table),
        AstView::Assign { target, value, .. } => {
            &&& indices_hold(*target, table)
            &&& indices_hold(*value, table)
        },
        AstView::If { condition, then_stmt, else_stmt } => {
            &&& indices_hold(*condition, table)
            &&& indices_hold(*then_stmt, table)
            &&& match else_stmt {
                Some(stmt) => indices_hold(*stmt, table),
                None => true,
            }
        },
        AstView::While { condition, body } => {
            &&& indices_hold(*condition, table)
            &&& indices_hold(*body, table)
        },
        AstView::For { start, end, body, tab_index, .. } => {
            &&& tab_index < table.tab.len()
            &&& indices_hold(*start, table)
            &&& indices_hold(*end, table)
            &&& indices_hold(*body, table)
        },
        AstView::ProcCall { args, tab_index, .. } => {
            &&& tab_index < table.tab.len()
            &&& all_hold(args, table)
        },
        AstView::BinOp { left, right, .. } => {
            &&& indices_hold(*left, table)
            &&& indices_hold(*right, table)
        },
        AstView::UnaryOp { operand, .. } => indices_hold(*operand, table),
        AstView::Var { tab_index, .. } => tab_index < table.tab.len(),
        AstView::Literal { .. } => true,
        AstView::Empty => true,
    }
}

/// Whether every index in a row of nodes points into the table.
pub open spec fn all_hold(nodes: Seq<AstView>, table: TableView) -> bool
    decreases nodes,
{
    forall|i: int| 0 <= i < nodes.len() ==> indices_hold(#[trigger] nodes[i], table)
}

/// What points into a table points into every table grown from it.
pub proof fn lemma_indices_hold_on(node: AstView, before: TableView, after: TableView)
    requires
        indices_hold(node, before),
        tables_grown(before, after),
    ensures
        indices_hold(node, after),
    decreases node,
{
    match node {
        AstView::Program { declarations, body, .. } => {
            lemma_all_hold_on(declarations, before, after);
            lemma_indices_hold_on(*body, before, after);
        },
        AstView::ConstDecl { value, .. } => {
            lemma_indices_hold_on(*value, before, after);
        },
        AstView::ProcDecl { params, declarations, body, .. } => {
            lemma_all_hold_on(params, before, after);
            lemma_all_hold_on(declarations, before, after);
            lemma_indices_hold_on(*body, before, after);
        },
        AstView::FuncDecl { params, declarations, body, .. } => {
            lemma_all_hold_on(params, before, after);
            lemma_all_hold_on(declarations, before, after);
            lemma_indices_hold_on(*body, before, after);
        },
        AstView::Block { statements } => {
            lemma_all_hold_on(statements, before, after);
        },
        AstView::Assign { target, value, .. } => {
            lemma_indices_hold_on(*target, before, after);
            lemma_indices_hold_on(*value, before, after);
        },
        AstView::If { condition, then_stmt, else_stmt } => {
            lemma_indices_hold_on(*condition, before, after);
            lemma_indices_hold_on(*then_stmt, before, after);
            match else_stmt {
                Some(stmt) => {
                    lemma_indices_hold_on(*stmt, before, after);
                },
                None => {},
            }
        },
        AstView::While { condition, body } => {
            lemma_indices_hold_on(*condition, before, after);
            lemma_indices_hold_on(*body, before, after);
        },
        AstView::For { start, end, body, .. } => {
            lemma_indices_hold_on(*start, before, after);
            lemma_indices_hold_on(*end, before, after);
            lemma_indices_hold_on(*body, before, after);
        },
        AstView::ProcCall { args, .. } => {
            lemma_all_hold_on(args, before, after);
        },
        AstView::BinOp { left, right, .. } => {
            lemma_indices_hold_on(*left, before, after);
            lemma_indices_hold_on(*right, before, after);
        },
        AstView::UnaryOp { operand, .. } => {
            lemma_indices_hold_on(*operand, before, after);
        },
        _ => {},
    }
}

/// The same of a row of nodes.
pub proof fn lemma_all_hold_on(nodes: Seq<AstView>, before: TableView, after: TableView)
    requires
        all_hold(nodes, before),
        tables_grown(before, after),
    ensures
        all_hold(nodes, after),
    decreases nodes,
{
    assert forall|i: int| 0 <= i < nodes.len() implies indices_hold(
        #[trigger] nodes[i],
        after,
    ) by {
        lemma_indices_hold_on(nodes[i], before, after);
    }
}

} // verus!
