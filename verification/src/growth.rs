//! The analysis only adds. Whatever part of a parse tree is analyzed, in
//! whatever state, the diagnostics gathered before are still there
//! afterwards, first and in their order, and so is every identifier and
//! every array type of the symbol table. Nothing is ever taken back: a
//! diagnostic stays, and an index stays good. A table in which every number
//! points where it should stays such a table, every index that the
//! decorated tree carries is an index of the table that the analysis leaves,
//! and every block that the analysis opens it closes again.

use crate::ast::AstView;
use crate::scoping::{all_hold, all_in_table, indices_hold, lemma_all_hold_on, lemma_indices_hold_on};
use crate::node::{Label, Tree};
use crate::semantic_error::{diagnostic, redeclared, ErrorKindView};
use crate::semantics::{
    arguments_from, array_entry, array_from, assignment, combine, compound_statement,
    condition_at, const_declaration, const_items, declaration_part, declarations_from,
    declare_parameters, declare_variables, expr_type, expression, expression_at, factor,
    for_statement, formal_parameter_list, function_declaration, get_type, has_parameters,
    identifier_list, if_statement, is_leaf_with, leaf_token, more_factors, more_terms, new_entry,
    number_literal, boolean_literal, parameter_groups, parameter_list, parameter_list_index,
    parts_left, procedure_call,
    procedure_declaration, program, program_name, range, simple_expression, statement,
    statement_at, statement_list, statements_from, subprogram_declaration, subprogram_name,
    subprogram_parts, term, type_at, type_declaration, type_items, var_declaration, var_groups,
    variable, while_statement, Ctx,
};
use crate::symbol_table::{
    kept, law_tables_only_grow, law_tables_stay_well_formed, lemma_lookup_in_range, tables_grown,
    TableView,
};
use crate::token::TokenType;
use crate::types::{DataTypeView, ObjectKind};
use vstd::prelude::*;

verus! {

/// Whether a state has only grown out of another: the diagnostics and the
/// tables of before are still there.
pub open spec fn grown(before: Ctx, after: Ctx) -> bool {
    kept(before.errors, after.errors) && tables_grown(before.table, after.table)
}

/// Whether a state has grown out of another and is as well formed as the
/// other was.
pub open spec fn steady(before: Ctx, after: Ctx) -> bool {
    grown(before, after) && (before.table.well_formed() ==> after.table.well_formed())
}

/// Whether the same blocks are open after as before, where a block was open
/// before.
pub open spec fn same_scope(before: Ctx, after: Ctx) -> bool {
    before.table.display.len() >= 1 ==> after.table.display == before.table.display
}

/// Whether a state is steady and has the same blocks open.
pub open spec fn settled(before: Ctx, after: Ctx) -> bool {
    steady(before, after) && same_scope(before, after)
}

/// Whether a node was made in a state that is settled, and points into its
/// table.
pub open spec fn good_node(before: Ctx, node: AstView, after: Ctx) -> bool {
    settled(before, after) && indices_hold(node, after.table)
}

/// The same of a row of nodes.
pub open spec fn good_nodes(before: Ctx, nodes: Seq<AstView>, after: Ctx) -> bool {
    settled(before, after) && all_hold(nodes, after.table)
}

proof fn lemma_carry(node: AstView, before: Ctx, after: Ctx)
    requires
        indices_hold(node, before.table),
        steady(before, after),
    ensures
        indices_hold(node, after.table),
{
    lemma_indices_hold_on(node, before.table, after.table);
}

proof fn lemma_carry_all(nodes: Seq<AstView>, before: Ctx, after: Ctx)
    requires
        all_hold(nodes, before.table),
        steady(before, after),
    ensures
        all_hold(nodes, after.table),
{
    lemma_all_hold_on(nodes, before.table, after.table);
}

proof fn lemma_one_more(nodes: Seq<AstView>, node: AstView, table: TableView)
    requires
        all_hold(nodes, table),
        indices_hold(node, table),
    ensures
        all_hold(nodes.push(node), table),
{
    assert forall|i: int| 0 <= i < nodes.push(node).len() implies indices_hold(
        #[trigger] nodes.push(node)[i],
        table,
    ) by {
        if i < nodes.len() {
            assert(nodes.push(node)[i] == nodes[i]);
        }
    }
}

proof fn lemma_some_more(nodes: Seq<AstView>, more: Seq<AstView>, table: TableView)
    requires
        all_hold(nodes, table),
        all_hold(more, table),
    ensures
        all_hold(nodes + more, table),
{
    assert forall|i: int| 0 <= i < (nodes + more).len() implies indices_hold(
        #[trigger] (nodes + more)[i],
        table,
    ) by {
        if i < nodes.len() {
            assert((nodes + more)[i] == nodes[i]);
        } else {
            assert((nodes + more)[i] == more[i - nodes.len()]);
        }
    }
}

/// What every operation on the table does to a state.
proof fn lemma_table_steps(c: Ctx, name: Seq<char>, obj: ObjectKind, t: DataTypeView, r: Option<usize>, level: usize)
    ensures
        steady(c, c.on(c.table.insert(new_entry(name, obj, t, r, level)))),
        steady(c, c.on(c.table.enter_block())),
        steady(c, c.on(c.table.exit_block())),
        forall|b: usize| b < c.table.btab.len() ==> steady(c, #[trigger] c.on(c.table.reenter_block(b))),
        steady(c, c.on(c.table.add_var_size(1))),
        same_scope(c, c.on(c.table.insert(new_entry(name, obj, t, r, level)))),
        same_scope(c, c.on(c.table.add_var_size(1))),
{
    reveal(TableView::insert);
    reveal(TableView::add_var_size);
    let entry = new_entry(name, obj, t, r, level);
    let array = array_entry(0, 0, t);
    law_tables_only_grow(c.table, entry, array, 0, 1);
    if c.table.well_formed() {
        law_tables_stay_well_formed(c.table, entry, array, 0, 1);
    }
    assert forall|b: usize| b < c.table.btab.len() implies steady(
        c,
        #[trigger] c.on(c.table.reenter_block(b)),
    ) by {
        law_tables_only_grow(c.table, entry, array, b, 1);
        if c.table.well_formed() {
            law_tables_stay_well_formed(c.table, entry, array, b, 1);
        }
    }
}

proof fn lemma_variable(name: Seq<char>, ctx: Ctx)
    ensures
        good_node(ctx, variable(name, ctx).0, variable(name, ctx).1),
{
    reveal(variable);
    lemma_lookup_in_range(ctx.table, name);
}

proof fn lemma_combine(op: Seq<char>, word: Seq<char>, left: DataTypeView, right: DataTypeView, ctx: Ctx)
    ensures
        settled(ctx, combine(op, word, left, right, ctx).1),
{
    reveal(combine);
}

proof fn lemma_factor(node: Tree, ctx: Ctx)
    ensures
        good_node(ctx, factor(node, ctx).0, factor(node, ctx).1),
    decreases node, 1nat, 0nat,
{
    if node.children.len() > 0 {
        let child = node.children[0];
        match child.label {
            Label::Terminal(token) => {
                if token.kind == TokenType::Number {
                    reveal(number_literal);
                } else if token.kind == TokenType::Keyword {
                    reveal(boolean_literal);
                } else if token.kind == TokenType::Identifier {
                    lemma_variable(token.text, ctx);
                } else if token.kind == TokenType::LogicalOperator {
                    if token.text == "tidak"@ && node.children.len() > 1 {
                        lemma_factor(node.children[1], ctx);
                    }
                } else if token.kind == TokenType::LParenthesis {
                    if node.children.len() > 1 {
                        lemma_expression(node.children[1], ctx);
                    }
                }
            },
            Label::ProcedureOrFunctionCall => {
                lemma_procedure_call(child, ctx);
            },
            _ => {},
        }
    }
}

proof fn lemma_term(node: Tree, ctx: Ctx)
    ensures
        good_node(ctx, term(node, ctx).0, term(node, ctx).1),
    decreases node, 1nat, 0nat,
{
    if node.children.len() > 0 {
        lemma_factor(node.children[0], ctx);
        let (first, c1) = factor(node.children[0], ctx);
        lemma_more_factors(node, 1, first, c1);
    }
}

proof fn lemma_more_factors(node: Tree, i: int, left: AstView, ctx: Ctx)
    requires
        indices_hold(left, ctx.table),
    ensures
        good_node(ctx, more_factors(node, i, left, ctx).0, more_factors(node, i, left, ctx).1),
    decreases node, 0nat, parts_left(node, i),
{
    if 0 <= i < node.children.len() {
        match leaf_token(node.children[i]) {
            None => {
                lemma_more_factors(node, i + 1, left, ctx);
            },
            Some(token) => {
                if i + 1 < node.children.len() {
                    lemma_factor(node.children[i + 1], ctx);
                    let (right, c1) = factor(node.children[i + 1], ctx);
                    let lt = expr_type(left, c1.table);
                    let rt = expr_type(right, c1.table);
                    lemma_combine(token.text, "dan"@, lt, rt, c1);
                    let (t, c2) = combine(token.text, "dan"@, lt, rt, c1);
                    lemma_carry(left, ctx, c1);
                    lemma_carry(left, c1, c2);
                    lemma_carry(right, c1, c2);
                    lemma_more_factors(
                        node,
                        i + 2,
                        AstView::BinOp {
                            op: token.text,
                            left: Box::new(left),
                            right: Box::new(right),
                            data_type: t,
                        },
                        c2,
                    );
                }
            },
        }
    }
}

proof fn lemma_simple_expression(node: Tree, ctx: Ctx)
    ensures
        good_node(ctx, simple_expression(node, ctx).0, simple_expression(node, ctx).1),
    decreases node, 1nat, 0nat,
{
    if node.children.len() == 0 {
    } else if is_leaf_with(node.children[0], "-"@) || is_leaf_with(node.children[0], "+"@) {
        if node.children.len() > 1 {
            lemma_term(node.children[1], ctx);
        }
        let (operand, c1) = if node.children.len() > 1 {
            term(node.children[1], ctx)
        } else {
            (AstView::Empty, ctx)
        };
        let first = if is_leaf_with(node.children[0], "-"@) {
            AstView::UnaryOp {
                op: "-"@,
                operand: Box::new(operand),
                data_type: expr_type(operand, c1.table),
            }
        } else {
            operand
        };
        assert(indices_hold(operand, c1.table));
        assert(indices_hold(first, c1.table));
        lemma_more_terms(node, 2, first, c1);
    } else {
        lemma_term(node.children[0], ctx);
        let (first, c1) = term(node.children[0], ctx);
        lemma_more_terms(node, 1, first, c1);
    }
}

proof fn lemma_more_terms(node: Tree, i: int, left: AstView, ctx: Ctx)
    requires
        indices_hold(left, ctx.table),
    ensures
        good_node(ctx, more_terms(node, i, left, ctx).0, more_terms(node, i, left, ctx).1),
    decreases node, 0nat, parts_left(node, i),
{
    if 0 <= i < node.children.len() {
        match leaf_token(node.children[i]) {
            None => {
                lemma_more_terms(node, i + 1, left, ctx);
            },
            Some(token) => {
                if i + 1 < node.children.len() {
                    lemma_term(node.children[i + 1], ctx);
                    let (right, c1) = term(node.children[i + 1], ctx);
                    let lt = expr_type(left, c1.table);
                    let rt = expr_type(right, c1.table);
                    lemma_combine(token.text, "atau"@, lt, rt, c1);
                    let (t, c2) = combine(token.text, "atau"@, lt, rt, c1);
                    lemma_carry(left, ctx, c1);
                    lemma_carry(left, c1, c2);
                    lemma_carry(right, c1, c2);
                    lemma_more_terms(
                        node,
                        i + 2,
                        AstView::BinOp {
                            op: token.text,
                            left: Box::new(left),
                            right: Box::new(right),
                            data_type: t,
                        },
                        c2,
                    );
                }
            },
        }
    }
}

proof fn lemma_expression(node: Tree, ctx: Ctx)
    ensures
        good_node(ctx, expression(node, ctx).0, expression(node, ctx).1),
    decreases node, 1nat, 0nat,
{
    if node.children.len() == 1 {
        lemma_simple_expression(node.children[0], ctx);
    } else if node.children.len() == 3 {
        lemma_simple_expression(node.children[0], ctx);
        let (left, c1) = simple_expression(node.children[0], ctx);
        lemma_simple_expression(node.children[2], c1);
        let c2 = simple_expression(node.children[2], c1).1;
        lemma_carry(left, c1, c2);
    }
}

proof fn lemma_arguments_from(node: Tree, i: int, acc: Seq<AstView>, ctx: Ctx)
    requires
        all_hold(acc, ctx.table),
    ensures
        good_nodes(ctx, arguments_from(node, i, acc, ctx).0, arguments_from(node, i, acc, ctx).1),
    decreases node, 0nat, parts_left(node, i),
{
    if 0 <= i < node.children.len() {
        if node.children[i].label is Expression {
            lemma_expression(node.children[i], ctx);
            let (arg, c1) = expression(node.children[i], ctx);
            lemma_carry_all(acc, ctx, c1);
            lemma_one_more(acc, arg, c1.table);
            lemma_arguments_from(node, i + 1, acc.push(arg), c1);
        } else {
            lemma_arguments_from(node, i + 1, acc, ctx);
        }
    }
}

proof fn lemma_parameter_list(node: Tree, ctx: Ctx)
    ensures
        good_nodes(ctx, parameter_list(node, ctx).0, parameter_list(node, ctx).1),
    decreases node, 1nat, 0nat,
{
    lemma_arguments_from(node, 0, Seq::empty(), ctx);
}

proof fn lemma_procedure_call(node: Tree, ctx: Ctx)
    ensures
        good_node(ctx, procedure_call(node, ctx).0, procedure_call(node, ctx).1),
    decreases node, 1nat, 0nat,
{
    if node.children.len() > 0 {
        match leaf_token(node.children[0]) {
            None => {},
            Some(token) => {
                lemma_lookup_in_range(ctx.table, token.text);
                match ctx.table.lookup(token.text) {
                    None => {},
                    Some(index) => {
                        let (args, c1) = if node.children.len() > 2 {
                            match parameter_list_index(node, 0) {
                                Some(k) => if 0 <= k < node.children.len() {
                                    lemma_parameter_list(node.children[k], ctx);
                                    parameter_list(node.children[k], ctx)
                                } else {
                                    (Seq::empty(), ctx)
                                },
                                None => (Seq::empty(), ctx),
                            }
                        } else {
                            (Seq::empty(), ctx)
                        };
                        assert(all_hold(args, c1.table));
                        assert(indices_hold(
                            AstView::ProcCall { name: token.text, args, tab_index: index },
                            c1.table,
                        ));
                    },
                }
            },
        }
    }
}

proof fn lemma_assignment(node: Tree, ctx: Ctx)
    ensures
        good_node(ctx, assignment(node, ctx).0, assignment(node, ctx).1),
    decreases node, 1nat, 0nat,
{
    if node.children.len() > 0 {
        match leaf_token(node.children[0]) {
            None => {},
            Some(token) => {
                lemma_lookup_in_range(ctx.table, token.text);
                match ctx.table.lookup(token.text) {
                    None => {},
                    Some(index) => {
                        let target = AstView::Var {
                            name: token.text,
                            data_type: ctx.table.tab[index as int].data_type,
                            tab_index: index,
                            level: ctx.table.tab[index as int].level,
                        };
                        let (value, c1) = if node.children.len() > 2 {
                            lemma_expression(node.children[2], ctx);
                            expression(node.children[2], ctx)
                        } else {
                            (AstView::Empty, ctx)
                        };
                        assert(indices_hold(target, c1.table));
                        assert(indices_hold(value, c1.table));
                    },
                }
            },
        }
    }
}

proof fn lemma_expression_at(node: Tree, i: int, ctx: Ctx)
    ensures
        good_node(ctx, expression_at(node, i, ctx).0, expression_at(node, i, ctx).1),
    decreases node, 0nat, 0nat,
{
    if 0 <= i < node.children.len() {
        lemma_expression(node.children[i], ctx);
    }
}

proof fn lemma_statement_at(node: Tree, i: int, ctx: Ctx)
    ensures
        good_node(ctx, statement_at(node, i, ctx).0, statement_at(node, i, ctx).1),
    decreases node, 0nat, 0nat,
{
    if 0 <= i < node.children.len() {
        lemma_statement(node.children[i], ctx);
    }
}

proof fn lemma_condition_at(node: Tree, i: int, ctx: Ctx)
    ensures
        good_node(ctx, condition_at(node, i, ctx).0, condition_at(node, i, ctx).1),
    decreases node, 0nat, 1nat,
{
    lemma_expression_at(node, i, ctx);
}

proof fn lemma_if_statement(node: Tree, ctx: Ctx)
    ensures
        good_node(ctx, if_statement(node, ctx).0, if_statement(node, ctx).1),
    decreases node, 1nat, 0nat,
{
    lemma_condition_at(node, 1, ctx);
    let (cond, c1) = condition_at(node, 1, ctx);
    lemma_statement_at(node, 3, c1);
    let (then_stmt, c2) = statement_at(node, 3, c1);
    lemma_carry(cond, c1, c2);
    if node.children.len() > 5 {
        lemma_statement_at(node, 5, c2);
        let c3 = statement_at(node, 5, c2).1;
        lemma_carry(cond, c2, c3);
        lemma_carry(then_stmt, c2, c3);
    }
}

proof fn lemma_while_statement(node: Tree, ctx: Ctx)
    ensures
        good_node(ctx, while_statement(node, ctx).0, while_statement(node, ctx).1),
    decreases node, 1nat, 0nat,
{
    lemma_condition_at(node, 1, ctx);
    let (cond, c1) = condition_at(node, 1, ctx);
    lemma_statement_at(node, 3, c1);
    let c2 = statement_at(node, 3, c1).1;
    lemma_carry(cond, c1, c2);
}

proof fn lemma_for_statement(node: Tree, ctx: Ctx)
    ensures
        good_node(ctx, for_statement(node, ctx).0, for_statement(node, ctx).1),
    decreases node, 1nat, 0nat,
{
    if node.children.len() >= 2 {
        match leaf_token(node.children[1]) {
            None => {},
            Some(token) => {
                lemma_lookup_in_range(ctx.table, token.text);
                match ctx.table.lookup(token.text) {
                    None => {},
                    Some(index) => {
                        let c1 = if ctx.table.tab[index as int].data_type is Integer {
                            ctx
                        } else {
                            ctx.report(diagnostic(ErrorKindView::InvalidLoopVariable, None))
                        };
                        lemma_expression_at(node, 3, c1);
                        let (start, c2) = expression_at(node, 3, c1);
                        lemma_expression_at(node, 5, c2);
                        let (end, c3) = expression_at(node, 5, c2);
                        lemma_statement_at(node, 7, c3);
                        let c4 = statement_at(node, 7, c3).1;
                        lemma_carry(start, c2, c3);
                        lemma_carry(start, c3, c4);
                        lemma_carry(end, c3, c4);
                    },
                }
            },
        }
    }
}

proof fn lemma_statement(node: Tree, ctx: Ctx)
    ensures
        good_node(ctx, statement(node, ctx).0, statement(node, ctx).1),
    decreases node, 3nat, 0nat,
{
    match node.label {
        Label::AssignmentStatement => lemma_assignment(node, ctx),
        Label::IfStatement => lemma_if_statement(node, ctx),
        Label::WhileStatement => lemma_while_statement(node, ctx),
        Label::ForStatement => lemma_for_statement(node, ctx),
        Label::ProcedureOrFunctionCall => lemma_procedure_call(node, ctx),
        Label::CompoundStatement => lemma_compound_statement(node, ctx),
        _ => {},
    }
}

proof fn lemma_statements_from(node: Tree, i: int, acc: Seq<AstView>, ctx: Ctx)
    requires
        all_hold(acc, ctx.table),
    ensures
        good_nodes(ctx, statements_from(node, i, acc, ctx).0, statements_from(node, i, acc, ctx).1),
    decreases node, 0nat, parts_left(node, i),
{
    if 0 <= i < node.children.len() {
        if node.children[i].label is Terminal {
            lemma_statements_from(node, i + 1, acc, ctx);
        } else {
            lemma_statement(node.children[i], ctx);
            let (stmt, c1) = statement(node.children[i], ctx);
            lemma_carry_all(acc, ctx, c1);
            lemma_one_more(acc, stmt, c1.table);
            lemma_statements_from(
                node,
                i + 1,
                if stmt is Empty {
                    acc
                } else {
                    acc.push(stmt)
                },
                c1,
            );
        }
    }
}

proof fn lemma_statement_list(node: Tree, ctx: Ctx)
    ensures
        good_nodes(ctx, statement_list(node, ctx).0, statement_list(node, ctx).1),
    decreases node, 1nat, 0nat,
{
    lemma_statements_from(node, 0, Seq::empty(), ctx);
}

proof fn lemma_compound_statement(node: Tree, ctx: Ctx)
    ensures
        good_node(ctx, compound_statement(node, ctx).0, compound_statement(node, ctx).1),
    decreases node, 1nat, 0nat,
{
    if node.children.len() >= 2 {
        lemma_statement_list(node.children[1], ctx);
    }
}

proof fn lemma_range(node: Tree, ctx: Ctx)
    ensures
        settled(ctx, range(node, ctx).2),
    decreases node, 1nat, 0nat,
{
    lemma_expression_at(node, 0, ctx);
    let c1 = expression_at(node, 0, ctx).1;
    lemma_expression_at(node, 2, c1);
}

proof fn lemma_array_from(node: Tree, k: int, ctx: Ctx)
    ensures
        settled(ctx, array_from(node, k, ctx).1),
    decreases node, 0nat, parts_left(node, k),
{
    reveal(TableView::insert_array);
    if 0 <= k < node.children.len() {
        lemma_range(node.children[k], ctx);
        let (low, high, c1) = range(node.children[k], ctx);
        let (element_type, c2) = if k + 2 < node.children.len() && is_leaf_with(
            node.children[k + 1],
            ","@,
        ) {
            lemma_array_from(node, k + 2, c1);
            array_from(node, k + 2, c1)
        } else if k + 3 < node.children.len() {
            lemma_get_type(node.children[k + 3], c1);
            get_type(node.children[k + 3], c1)
        } else {
            (DataTypeView::Unknown, c1)
        };
        law_tables_only_grow(
            c2.table,
            new_entry(Seq::empty(), ObjectKind::Type, element_type, None, 0),
            array_entry(low, high, element_type),
            0,
            0,
        );
        if c2.table.well_formed() {
            law_tables_stay_well_formed(
                c2.table,
                new_entry(Seq::empty(), ObjectKind::Type, element_type, None, 0),
                array_entry(low, high, element_type),
                0,
                0,
            );
        }
    }
}

proof fn lemma_get_type(node: Tree, ctx: Ctx)
    ensures
        settled(ctx, get_type(node, ctx).1),
    decreases node, 1nat, 0nat,
{
    if node.children.len() > 0 {
        let child = node.children[0];
        if child.label is ArrayType {
            lemma_array_from(child, 2, ctx);
        }
    }
}

proof fn lemma_type_at(node: Tree, i: int, ctx: Ctx)
    ensures
        settled(ctx, type_at(node, i, ctx).1),
    decreases node, 0nat, 0nat,
{
    if 0 <= i < node.children.len() {
        lemma_get_type(node.children[i], ctx);
    }
}

proof fn lemma_declare_variables(
    names: Seq<Seq<char>>,
    k: int,
    data_type: DataTypeView,
    level: usize,
    acc: Seq<AstView>,
    ctx: Ctx,
)
    requires
        all_hold(acc, ctx.table),
    ensures
        good_nodes(
            ctx,
            declare_variables(names, k, data_type, level, acc, ctx).0,
            declare_variables(names, k, data_type, level, acc, ctx).1,
        ),
    decreases names.len() - k,
{
    if 0 <= k < names.len() {
        if ctx.table.lookup_current_scope(names[k]) is Some {
            lemma_declare_variables(
                names,
                k + 1,
                data_type,
                level,
                acc,
                ctx.report(redeclared(names[k])),
            );
        } else {
            reveal(TableView::insert);
            reveal(TableView::add_var_size);
            let index = ctx.table.tab.len() as usize;
            let entry = new_entry(names[k], ObjectKind::Variable, data_type, None, level);
            let t1 = ctx.table.insert(entry);
            let after = ctx.on(t1.add_var_size(1));
            let decl = AstView::VarDecl {
                names: seq![names[k]],
                data_type,
                tab_indices: seq![index],
                level,
            };
            lemma_table_steps(ctx, names[k], ObjectKind::Variable, data_type, None, level);
            lemma_table_steps(ctx.on(t1), names[k], ObjectKind::Variable, data_type, None, level);
            assert(after == ctx.on(t1).on(ctx.on(t1).table.add_var_size(1)));
            lemma_carry_all(acc, ctx, after);
            lemma_one_more(acc, decl, after.table);
            lemma_declare_variables(names, k + 1, data_type, level, acc.push(decl), after);
        }
    }
}

proof fn lemma_var_groups(node: Tree, i: int, acc: Seq<AstView>, ctx: Ctx)
    requires
        all_hold(acc, ctx.table),
    ensures
        good_nodes(ctx, var_groups(node, i, acc, ctx).0, var_groups(node, i, acc, ctx).1),
    decreases node, 0nat, parts_left(node, i),
{
    if 0 <= i < node.children.len() {
        let names = identifier_list(node.children[i]);
        lemma_type_at(node, i + 2, ctx);
        let (data_type, c1) = type_at(node, i + 2, ctx);
        lemma_carry_all(acc, ctx, c1);
        lemma_declare_variables(names, 0, data_type, c1.table.current_level(), acc, c1);
        let (acc1, c2) = declare_variables(
            names,
            0,
            data_type,
            c1.table.current_level(),
            acc,
            c1,
        );
        lemma_var_groups(node, i + 4, acc1, c2);
    }
}

proof fn lemma_var_declaration(node: Tree, ctx: Ctx)
    ensures
        good_nodes(ctx, var_declaration(node, ctx).0, var_declaration(node, ctx).1),
    decreases node, 1nat, 0nat,
{
    lemma_var_groups(node, 1, Seq::empty(), ctx);
}

proof fn lemma_const_items(node: Tree, i: int, acc: Seq<AstView>, ctx: Ctx)
    requires
        all_hold(acc, ctx.table),
    ensures
        good_nodes(ctx, const_items(node, i, acc, ctx).0, const_items(node, i, acc, ctx).1),
    decreases node, 0nat, parts_left(node, i),
{
    if 0 <= i < node.children.len() {
        match leaf_token(node.children[i]) {
            None => {
                lemma_const_items(node, i + 1, acc, ctx);
            },
            Some(token) => {
                lemma_expression_at(node, i + 2, ctx);
                let (value, c1) = expression_at(node, i + 2, ctx);
                let data_type = expr_type(value, c1.table);
                lemma_carry_all(acc, ctx, c1);
                if c1.table.lookup_current_scope(token.text) is Some {
                    lemma_const_items(node, i + 4, acc, c1.report(redeclared(token.text)));
                } else {
                    reveal(TableView::insert);
                    let index = c1.table.tab.len() as usize;
                    let level = c1.table.current_level();
                    lemma_table_steps(c1, token.text, ObjectKind::Constant, data_type, None, level);
                    let after = c1.on(
                        c1.table.insert(
                            new_entry(token.text, ObjectKind::Constant, data_type, None, level),
                        ),
                    );
                    let decl = AstView::ConstDecl {
                        name: token.text,
                        value: Box::new(value),
                        data_type,
                        tab_index: index,
                    };
                    lemma_carry(value, c1, after);
                    lemma_carry_all(acc, c1, after);
                    lemma_one_more(acc, decl, after.table);
                    lemma_const_items(node, i + 4, acc.push(decl), after);
                }
            },
        }
    }
}

proof fn lemma_const_declaration(node: Tree, ctx: Ctx)
    ensures
        good_nodes(ctx, const_declaration(node, ctx).0, const_declaration(node, ctx).1),
    decreases node, 1nat, 0nat,
{
    lemma_const_items(node, 1, Seq::empty(), ctx);
}

proof fn lemma_type_items(node: Tree, i: int, acc: Seq<AstView>, ctx: Ctx)
    requires
        all_hold(acc, ctx.table),
    ensures
        good_nodes(ctx, type_items(node, i, acc, ctx).0, type_items(node, i, acc, ctx).1),
    decreases node, 0nat, parts_left(node, i),
{
    if 0 <= i < node.children.len() {
        match leaf_token(node.children[i]) {
            None => {
                lemma_type_items(node, i + 1, acc, ctx);
            },
            Some(token) => {
                lemma_type_at(node, i + 2, ctx);
                let (type_def, c1) = type_at(node, i + 2, ctx);
                lemma_carry_all(acc, ctx, c1);
                if c1.table.lookup_current_scope(token.text) is Some {
                    lemma_type_items(node, i + 4, acc, c1.report(redeclared(token.text)));
                } else {
                    reveal(TableView::insert);
                    let index = c1.table.tab.len() as usize;
                    let level = c1.table.current_level();
                    lemma_table_steps(c1, token.text, ObjectKind::Type, type_def, None, level);
                    let after = c1.on(
                        c1.table.insert(
                            new_entry(token.text, ObjectKind::Type, type_def, None, level),
                        ),
                    );
                    let decl = AstView::TypeDecl { name: token.text, type_def, tab_index: index };
                    lemma_carry_all(acc, c1, after);
                    lemma_one_more(acc, decl, after.table);
                    lemma_type_items(node, i + 4, acc.push(decl), after);
                }
            },
        }
    }
}

proof fn lemma_type_declaration(node: Tree, ctx: Ctx)
    ensures
        good_nodes(ctx, type_declaration(node, ctx).0, type_declaration(node, ctx).1),
    decreases node, 1nat, 0nat,
{
    lemma_type_items(node, 1, Seq::empty(), ctx);
}

proof fn lemma_declare_parameters(
    names: Seq<Seq<char>>,
    k: int,
    data_type: DataTypeView,
    indices: Seq<usize>,
    ctx: Ctx,
)
    requires
        all_in_table(indices, ctx.table),
    ensures
        settled(ctx, declare_parameters(names, k, data_type, indices, ctx).1),
        all_in_table(
            declare_parameters(names, k, data_type, indices, ctx).0,
            declare_parameters(names, k, data_type, indices, ctx).1.table,
        ),
    decreases names.len() - k,
{
    if 0 <= k < names.len() {
        reveal(TableView::insert);
        let index = ctx.table.tab.len() as usize;
        let level = ctx.table.current_level();
        lemma_table_steps(ctx, names[k], ObjectKind::Parameter, data_type, None, level);
        let table = ctx.table.insert(
            new_entry(names[k], ObjectKind::Parameter, data_type, None, level),
        );
        assert forall|j: int| 0 <= j < indices.push(index).len() implies (
        #[trigger] indices.push(index)[j]) < table.tab.len() by {
            if j < indices.len() {
                assert(indices.push(index)[j] == indices[j]);
            }
        }
        lemma_declare_parameters(names, k + 1, data_type, indices.push(index), ctx.on(table));
    }
}

proof fn lemma_parameter_groups(node: Tree, i: int, acc: Seq<AstView>, ctx: Ctx)
    requires
        all_hold(acc, ctx.table),
    ensures
        good_nodes(ctx, parameter_groups(node, i, acc, ctx).0, parameter_groups(node, i, acc, ctx).1),
    decreases node, 0nat, parts_left(node, i),
{
    if 0 <= i && i + 1 < node.children.len() {
        let j = if is_leaf_with(node.children[i], "variabel"@) {
            i + 1
        } else {
            i
        };
        let names = if j < node.children.len() {
            identifier_list(node.children[j])
        } else {
            Seq::empty()
        };
        lemma_type_at(node, j + 2, ctx);
        let (data_type, c1) = type_at(node, j + 2, ctx);
        lemma_declare_parameters(names, 0, data_type, Seq::empty(), c1);
        let (indices, c2) = declare_parameters(names, 0, data_type, Seq::empty(), c1);
        let group = AstView::ParamDecl { names, data_type, is_var: false, tab_indices: indices };
        let k = if j + 4 < node.children.len() && node.children[j + 3].label is Terminal {
            j + 4
        } else {
            j + 3
        };
        lemma_carry_all(acc, ctx, c1);
        lemma_carry_all(acc, c1, c2);
        lemma_one_more(acc, group, c2.table);
        lemma_parameter_groups(node, k, acc.push(group), c2);
    }
}

proof fn lemma_formal_parameter_list(node: Tree, ctx: Ctx)
    ensures
        good_nodes(ctx, formal_parameter_list(node, ctx).0, formal_parameter_list(node, ctx).1),
    decreases node, 1nat, 0nat,
{
    lemma_parameter_groups(node, 1, Seq::empty(), ctx);
}

proof fn lemma_subprogram_parts(node: Tree, params: Option<int>, rest: int, ctx: Ctx)
    ensures
        settled(ctx, subprogram_parts(node, params, rest, ctx).3),
        all_hold(
            subprogram_parts(node, params, rest, ctx).0,
            subprogram_parts(node, params, rest, ctx).3.table,
        ),
        all_hold(
            subprogram_parts(node, params, rest, ctx).1,
            subprogram_parts(node, params, rest, ctx).3.table,
        ),
        indices_hold(
            subprogram_parts(node, params, rest, ctx).2,
            subprogram_parts(node, params, rest, ctx).3.table,
        ),
    decreases node, 0nat, 0nat,
{
    let (parameters, c1) = match params {
        Some(p) => if 0 <= p < node.children.len() {
            lemma_formal_parameter_list(node.children[p], ctx);
            formal_parameter_list(node.children[p], ctx)
        } else {
            (Seq::empty(), ctx)
        },
        None => (Seq::empty(), ctx),
    };
    let (declarations, c2) = if 0 <= rest < node.children.len() {
        lemma_declaration_part(node.children[rest], c1);
        declaration_part(node.children[rest], c1)
    } else {
        (Seq::empty(), c1)
    };
    let c3 = if 0 <= rest + 1 < node.children.len() {
        lemma_compound_statement(node.children[rest + 1], c2);
        compound_statement(node.children[rest + 1], c2).1
    } else {
        c2
    };
    lemma_carry_all(parameters, c1, c2);
    lemma_carry_all(parameters, c2, c3);
    lemma_carry_all(declarations, c2, c3);
}

proof fn lemma_procedure_declaration(node: Tree, ctx: Ctx)
    ensures
        good_node(ctx, procedure_declaration(node, ctx).0, procedure_declaration(node, ctx).1),
    decreases node, 1nat, 0nat,
{
    reveal(TableView::reenter_block);
    reveal(TableView::enter_block);
    reveal(TableView::exit_block);
    reveal(TableView::insert);
    let name = subprogram_name(node);
    let c0 = if ctx.table.lookup_current_scope(name) is Some {
        ctx.report(redeclared(name))
    } else {
        ctx
    };
    let block = c0.table.btab.len() as usize;
    let entered = c0.table.enter_block();
    let outer = entered.exit_block();
    let level = outer.current_level();
    let index = outer.tab.len() as usize;
    let declared = outer.insert(
        new_entry(name, ObjectKind::Procedure, DataTypeView::Void, Some(block), level),
    );
    lemma_table_steps(c0, name, ObjectKind::Procedure, DataTypeView::Void, Some(block), level);
    lemma_table_steps(
        c0.on(entered),
        name,
        ObjectKind::Procedure,
        DataTypeView::Void,
        Some(block),
        level,
    );
    lemma_table_steps(
        c0.on(outer),
        name,
        ObjectKind::Procedure,
        DataTypeView::Void,
        Some(block),
        level,
    );
    lemma_table_steps(
        c0.on(declared),
        name,
        ObjectKind::Procedure,
        DataTypeView::Void,
        Some(block),
        level,
    );
    let c1 = c0.on(declared.reenter_block(block));
    assert(c1 == c0.on(declared).on(c0.on(declared).table.reenter_block(block)));
    let (params, rest) = if has_parameters(node) {
        (Some(2int), 4int)
    } else {
        (None, 3int)
    };
    lemma_subprogram_parts(node, params, rest, c1);
    let (parameters, declarations, body, c2) = subprogram_parts(node, params, rest, c1);
    lemma_table_steps(c2, name, ObjectKind::Procedure, DataTypeView::Void, Some(block), level);
    let c3 = c2.on(c2.table.exit_block());
    lemma_carry_all(parameters, c2, c3);
    lemma_carry_all(declarations, c2, c3);
    lemma_carry(body, c2, c3);
    assert(index < declared.tab.len());
    assert(block < declared.btab.len());
    if ctx.table.display.len() >= 1 {
        let open = ctx.table.display;
        assert(outer.display =~= open);
        assert(c1.table.display == open.push(block));
        assert(c3.table.display =~= open);
    }
}

proof fn lemma_function_declaration(node: Tree, ctx: Ctx)
    ensures
        good_node(ctx, function_declaration(node, ctx).0, function_declaration(node, ctx).1),
    decreases node, 1nat, 0nat,
{
    reveal(TableView::reenter_block);
    reveal(TableView::enter_block);
    reveal(TableView::exit_block);
    reveal(TableView::insert);
    let name = subprogram_name(node);
    let c0 = if ctx.table.lookup_current_scope(name) is Some {
        ctx.report(redeclared(name))
    } else {
        ctx
    };
    let block = c0.table.btab.len() as usize;
    let (params, at) = if has_parameters(node) {
        (Some(2int), 4int)
    } else {
        (None, 3int)
    };
    lemma_table_steps(c0, name, ObjectKind::Function, DataTypeView::Void, Some(block), 0);
    lemma_type_at(node, at, c0.on(c0.table.enter_block()));
    let (return_type, c1) = type_at(node, at, c0.on(c0.table.enter_block()));
    let outer = c1.table.exit_block();
    let level = outer.current_level();
    let index = outer.tab.len() as usize;
    let declared = outer.insert(
        new_entry(name, ObjectKind::Function, return_type, Some(block), level),
    );
    lemma_table_steps(c1, name, ObjectKind::Function, return_type, Some(block), level);
    lemma_table_steps(c1.on(outer), name, ObjectKind::Function, return_type, Some(block), level);
    lemma_table_steps(
        c1.on(declared),
        name,
        ObjectKind::Function,
        return_type,
        Some(block),
        level,
    );
    let c2 = c1.on(declared.reenter_block(block));
    assert(c2 == c1.on(declared).on(c1.on(declared).table.reenter_block(block)));
    lemma_subprogram_parts(node, params, at + 2, c2);
    let (parameters, declarations, body, c3) = subprogram_parts(node, params, at + 2, c2);
    lemma_table_steps(c3, name, ObjectKind::Function, return_type, Some(block), level);
    let c4 = c3.on(c3.table.exit_block());
    lemma_carry_all(parameters, c3, c4);
    lemma_carry_all(declarations, c3, c4);
    lemma_carry(body, c3, c4);
    assert(index < declared.tab.len());
    assert(block < declared.btab.len());
    if ctx.table.display.len() >= 1 {
        let open = ctx.table.display;
        assert(c1.table.display == open.push(block));
        assert(outer.display =~= open);
        assert(c2.table.display == open.push(block));
        assert(c4.table.display =~= open);
    }
}

proof fn lemma_subprogram_declaration(node: Tree, ctx: Ctx)
    ensures
        settled(ctx, subprogram_declaration(node, ctx).1),
        subprogram_declaration(node, ctx).0 matches Some(d) ==> indices_hold(
            d,
            subprogram_declaration(node, ctx).1.table,
        ),
    decreases node, 1nat, 0nat,
{
    if node.children.len() > 0 {
        let child = node.children[0];
        match child.label {
            Label::ProcedureDeclaration => lemma_procedure_declaration(child, ctx),
            Label::FunctionDeclaration => lemma_function_declaration(child, ctx),
            _ => {},
        }
    }
}

proof fn lemma_declarations_from(node: Tree, i: int, acc: Seq<AstView>, ctx: Ctx)
    requires
        all_hold(acc, ctx.table),
    ensures
        good_nodes(ctx, declarations_from(node, i, acc, ctx).0, declarations_from(node, i, acc, ctx).1),
    decreases node, 0nat, parts_left(node, i),
{
    if 0 <= i < node.children.len() {
        let child = node.children[i];
        match child.label {
            Label::ConstDeclaration => {
                lemma_const_declaration(child, ctx);
                let (more, c1) = const_declaration(child, ctx);
                lemma_carry_all(acc, ctx, c1);
                lemma_some_more(acc, more, c1.table);
                lemma_declarations_from(node, i + 1, acc + more, c1);
            },
            Label::TypeDeclaration => {
                lemma_type_declaration(child, ctx);
                let (more, c1) = type_declaration(child, ctx);
                lemma_carry_all(acc, ctx, c1);
                lemma_some_more(acc, more, c1.table);
                lemma_declarations_from(node, i + 1, acc + more, c1);
            },
            Label::VarDeclaration => {
                lemma_var_declaration(child, ctx);
                let (more, c1) = var_declaration(child, ctx);
                lemma_carry_all(acc, ctx, c1);
                lemma_some_more(acc, more, c1.table);
                lemma_declarations_from(node, i + 1, acc + more, c1);
            },
            Label::SubprogramDeclaration => {
                lemma_subprogram_declaration(child, ctx);
                let (decl, c1) = subprogram_declaration(child, ctx);
                lemma_carry_all(acc, ctx, c1);
                match decl {
                    Some(d) => {
                        lemma_one_more(acc, d, c1.table);
                    },
                    None => {},
                }
                lemma_declarations_from(
                    node,
                    i + 1,
                    match decl {
                        Some(d) => acc.push(d),
                        None => acc,
                    },
                    c1,
                );
            },
            _ => {
                lemma_declarations_from(node, i + 1, acc, ctx);
            },
        }
    }
}

proof fn lemma_declaration_part(node: Tree, ctx: Ctx)
    ensures
        good_nodes(ctx, declaration_part(node, ctx).0, declaration_part(node, ctx).1),
    decreases node, 1nat, 0nat,
{
    lemma_declarations_from(node, 0, Seq::empty(), ctx);
}

/// The analysis only adds. Whatever tree is analyzed in whatever state, the
/// diagnostics of before are the first of the diagnostics afterwards, every
/// identifier and every array type of before is still in its place, and no
/// block is lost.
pub proof fn law_analysis_only_adds(tree: Tree, ctx: Ctx)
    ensures
        grown(ctx, program(tree, ctx).1),
{
    lemma_program(tree, ctx);
}

/// The analysis keeps the table well formed. Where every number in the
/// table pointed where it should before, it does so afterwards, whatever tree
/// was analyzed: every block that is open exists, and every chain of
/// identifiers leads back through older ones and ends.
pub proof fn law_analysis_keeps_the_table_well_formed(tree: Tree, ctx: Ctx)
    requires
        ctx.table.well_formed(),
    ensures
        program(tree, ctx).1.table.well_formed(),
{
    lemma_program(tree, ctx);
}

/// The tree points into the table. Every index of an identifier or of a
/// block that the decorated tree carries is an index of the table as the
/// analysis leaves it: no node refers to a record that is not there.
pub proof fn law_the_tree_points_into_the_table(tree: Tree, ctx: Ctx)
    ensures
        indices_hold(program(tree, ctx).0, program(tree, ctx).1.table),
{
    lemma_program(tree, ctx);
}

/// The analysis leaves the open blocks as it found them. Every block that
/// the analysis opens it closes again: where a block was open before, the
/// same blocks are open afterwards, in the same order.
pub proof fn law_analysis_closes_what_it_opens(tree: Tree, ctx: Ctx)
    requires
        ctx.table.display.len() >= 1,
    ensures
        program(tree, ctx).1.table.display == ctx.table.display,
{
    lemma_program(tree, ctx);
}

proof fn lemma_program(tree: Tree, ctx: Ctx)
    ensures
        good_node(ctx, program(tree, ctx).0, program(tree, ctx).1),
{
    if tree.label is Program && tree.children.len() >= 3 {
        reveal(TableView::enter_block);
        reveal(TableView::exit_block);
        reveal(TableView::insert);
        let name = program_name(tree.children[0]);
        lemma_table_steps(ctx, name, ObjectKind::Program, DataTypeView::Void, None, 0);
        let c1 = ctx.on(
            ctx.table.insert(new_entry(name, ObjectKind::Program, DataTypeView::Void, None, 0)),
        );
        lemma_declaration_part(tree.children[1], c1);
        let (declarations, c2) = declaration_part(tree.children[1], c1);
        lemma_table_steps(c2, name, ObjectKind::Program, DataTypeView::Void, None, 0);
        let entered = c2.on(c2.table.enter_block());
        lemma_compound_statement(tree.children[2], entered);
        let (body, c3) = compound_statement(tree.children[2], entered);
        lemma_table_steps(c3, name, ObjectKind::Program, DataTypeView::Void, None, 0);
        let c4 = c3.on(c3.table.exit_block());
        lemma_carry_all(declarations, c2, entered);
        lemma_carry_all(declarations, entered, c3);
        lemma_carry_all(declarations, c3, c4);
        lemma_carry(body, c3, c4);
        if ctx.table.display.len() >= 1 {
            let open = ctx.table.display;
            assert(entered.table.display == open.push(c2.table.btab.len() as usize));
            assert(c4.table.display =~= open);
        }
    }
}

} // verus!
