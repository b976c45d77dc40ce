//! What the analysis of a parse tree gives, as a function from the tree and
//! the state before to the decorated tree and the state after.
//!
//! The state is the symbol table and the diagnostics so far. Every function
//! here takes a node of the parse tree and a state, and gives what that node
//! turns into together with the state it leaves. No shape of tree is
//! refused: where a part is missing or is not what the grammar puts there,
//! the node turns into `Empty`, or the type into `Unknown`, and the analysis
//! goes on. Nothing here runs: the analyzer is proved to compute exactly
//! these functions.

use crate::ast::{AstView, LiteralView};
use crate::node::{Label, Tree};
use crate::number::{has_point, integer_value, real_text};
use crate::semantic_error::{
    diagnostic, invalid_operation, redeclared, type_mismatch, undeclared, ErrorKindView,
    ErrorView,
};
use crate::symbol_table::{ATabEntryView, TabEntryView, TableView};
use crate::token::{TokenType, TokenView};
use crate::types::{arithmetic_type, assignable, compatible, name_of_type, DataTypeView, ObjectKind};
use vstd::prelude::*;

verus! {

/// The state of an analysis: the symbol table and the diagnostics so far.
pub struct Ctx {
    pub table: TableView,
    pub errors: Seq<ErrorView>,
}

impl Ctx {
    /// The state with one more diagnostic.
    pub open spec fn report(self, e: ErrorView) -> Ctx {
        Ctx { errors: self.errors.push(e), ..self }
    }

    /// The state with another table.
    pub open spec fn on(self, table: TableView) -> Ctx {
        Ctx { table, ..self }
    }
}

/// The record of a newly declared identifier. Its link is set when it is
/// entered in the table.
pub open spec fn new_entry(
    name: Seq<char>,
    obj: ObjectKind,
    data_type: DataTypeView,
    ref_index: Option<usize>,
    level: usize,
) -> TabEntryView {
    TabEntryView { name, link: None, obj, data_type, ref_index, normal: true, level, address: 0 }
}

/// How many parts of a node lie at index `i` and behind it.
pub open spec fn parts_left(node: Tree, i: int) -> nat {
    if i < node.children.len() {
        (node.children.len() - i) as nat
    } else {
        0
    }
}

/// The token of a leaf.
pub open spec fn leaf_token(node: Tree) -> Option<TokenView> {
    match node.label {
        Label::Terminal(token) => Some(token),
        _ => None,
    }
}

/// Whether a node is the leaf of a token with the given text.
pub open spec fn is_leaf_with(node: Tree, text: Seq<char>) -> bool {
    match node.label {
        Label::Terminal(token) => token.text == text,
        _ => false,
    }
}

/// The type of an expression: the one its node carries, and for a call the
/// declared type of what is called.
pub open spec fn expr_type(node: AstView, table: TableView) -> DataTypeView {
    match node {
        AstView::Literal { data_type, .. } => data_type,
        AstView::Var { data_type, .. } => data_type,
        AstView::BinOp { data_type, .. } => data_type,
        AstView::UnaryOp { data_type, .. } => data_type,
        AstView::ProcCall { tab_index, .. } => if tab_index < table.tab.len() {
            table.tab[tab_index as int].data_type
        } else {
            DataTypeView::Unknown
        },
        _ => DataTypeView::Unknown,
    }
}

/// The whole number that an expression writes, where it is a literal whole
/// number with minus and plus signs in front of it, or without.
pub open spec fn literal_value(node: AstView) -> Option<int>
    decreases node,
{
    match node {
        AstView::Literal { value: LiteralView::Integer(v), .. } => Some(v as int),
        AstView::UnaryOp { op, operand, .. } => match literal_value(*operand) {
            Some(v) => if op == "-"@ {
                Some(-v)
            } else if op == "+"@ {
                Some(v)
            } else {
                None
            },
            None => None,
        },
        _ => None,
    }
}

/// The whole number that a bound of a range stands for, where it is a
/// literal whole number that fits in 32 bits. The signs are applied first
/// and the fit is tested of the signed number, so that the least number of
/// 32 bits can be written. A named constant does not count.
pub open spec fn literal_int(node: AstView) -> Option<i32> {
    match literal_value(node) {
        Some(v) => if i32::MIN <= v <= i32::MAX {
            Some(v as i32)
        } else {
            None
        },
        None => None,
    }
}

/// The names of an identifier list from its part `i` on, behind those
/// already gathered.
pub open spec fn names_from(node: Tree, i: int, acc: Seq<Seq<char>>) -> Seq<Seq<char>>
    decreases node.children.len() - i,
{
    if i < 0 || i >= node.children.len() {
        acc
    } else {
        match leaf_token(node.children[i]) {
            Some(token) => if token.kind == TokenType::Identifier {
                names_from(node, i + 1, acc.push(token.text))
            } else {
                names_from(node, i + 1, acc)
            },
            None => names_from(node, i + 1, acc),
        }
    }
}

/// The names in an identifier list.
pub open spec fn identifier_list(node: Tree) -> Seq<Seq<char>> {
    names_from(node, 0, Seq::empty())
}

/// The name in a program header.
pub open spec fn program_name(header: Tree) -> Seq<char> {
    if header.children.len() > 1 {
        match leaf_token(header.children[1]) {
            Some(token) => token.text,
            None => "Unknown"@,
        }
    } else {
        "Unknown"@
    }
}

/// The literal that a number token stands for: a real where the text holds
/// a point, and else a whole number. A text that writes neither gives no
/// node.
#[verifier::opaque]
pub open spec fn number_literal(text: Seq<char>) -> AstView {
    if has_point(text) {
        if real_text(text) {
            AstView::Literal { value: LiteralView::Real(text), data_type: DataTypeView::Real }
        } else {
            AstView::Empty
        }
    } else {
        match integer_value(text) {
            Some(v) => AstView::Literal {
                value: LiteralView::Integer(v),
                data_type: DataTypeView::Integer,
            },
            None => AstView::Empty,
        }
    }
}

/// The literal that a keyword in an expression stands for.
#[verifier::opaque]
pub open spec fn boolean_literal(text: Seq<char>) -> AstView {
    if text == "true"@ {
        AstView::Literal { value: LiteralView::Boolean(true), data_type: DataTypeView::Boolean }
    } else if text == "false"@ {
        AstView::Literal { value: LiteralView::Boolean(false), data_type: DataTypeView::Boolean }
    } else {
        AstView::Empty
    }
}

/// What stands for a name that resolves to nothing, so that the types
/// around it can still be worked out.
pub open spec fn placeholder() -> AstView {
    AstView::Literal { value: LiteralView::Integer(0), data_type: DataTypeView::Unknown }
}

/// A name in an expression: the variable it resolves to, or a diagnostic
/// and the placeholder.
#[verifier::opaque]
pub open spec fn variable(name: Seq<char>, ctx: Ctx) -> (AstView, Ctx) {
    match ctx.table.lookup(name) {
        Some(index) => (
            AstView::Var {
                name,
                data_type: ctx.table.tab[index as int].data_type,
                tab_index: index,
                level: ctx.table.tab[index as int].level,
            },
            ctx,
        ),
        None => (placeholder(), ctx.report(undeclared(name))),
    }
}

/// How the types of two operands are written in a diagnostic.
pub open spec fn both_types(left: DataTypeView, right: DataTypeView) -> Seq<char> {
    name_of_type(left) + " and "@ + name_of_type(right)
}

/// The type of a binary operation in a simple expression or a term, and the
/// state after it was checked. The word operator (`atau`, `dan`) asks for
/// two booleans and gives a boolean even where it does not get them; any
/// other operator is arithmetic and gives no type where the operands allow
/// none.
#[verifier::opaque]
pub open spec fn combine(
    op: Seq<char>,
    word: Seq<char>,
    left: DataTypeView,
    right: DataTypeView,
    ctx: Ctx,
) -> (DataTypeView, Ctx) {
    if op == word {
        if left is Boolean && right is Boolean {
            (DataTypeView::Boolean, ctx)
        } else {
            (DataTypeView::Boolean, ctx.report(invalid_operation(op, both_types(left, right))))
        }
    } else {
        match arithmetic_type(left, right) {
            Some(t) => (t, ctx),
            None => (
                DataTypeView::Unknown,
                ctx.report(invalid_operation(op, both_types(left, right))),
            ),
        }
    }
}

/// factor: a literal, a variable, a negation, an expression in parentheses
/// or a call.
pub open spec fn factor(node: Tree, ctx: Ctx) -> (AstView, Ctx)
    decreases node, 1nat, 0nat,
{
    if node.children.len() == 0 {
        (AstView::Empty, ctx)
    } else {
        let child = node.children[0];
        match child.label {
            Label::Terminal(token) => match token.kind {
                TokenType::Number => (number_literal(token.text), ctx),
                TokenType::CharLiteral => (
                    AstView::Literal {
                        value: LiteralView::Char(
                            if token.text.len() > 0 {
                                token.text[0]
                            } else {
                                ' '
                            },
                        ),
                        data_type: DataTypeView::Char,
                    },
                    ctx,
                ),
                TokenType::StringLiteral => (
                    AstView::Literal {
                        value: LiteralView::String(token.text),
                        data_type: DataTypeView::String,
                    },
                    ctx,
                ),
                TokenType::Identifier => variable(token.text, ctx),
                TokenType::Keyword => (boolean_literal(token.text), ctx),
                TokenType::LogicalOperator => if token.text == "tidak"@ && node.children.len()
                    > 1 {
                    let (operand, c1) = factor(node.children[1], ctx);
                    let t = expr_type(operand, c1.table);
                    let c2 = if t is Boolean {
                        c1
                    } else {
                        c1.report(invalid_operation("tidak"@, name_of_type(t)))
                    };
                    (
                        AstView::UnaryOp {
                            op: "tidak"@,
                            operand: Box::new(operand),
                            data_type: DataTypeView::Boolean,
                        },
                        c2,
                    )
                } else {
                    (AstView::Empty, ctx)
                },
                TokenType::LParenthesis => if node.children.len() > 1 {
                    expression(node.children[1], ctx)
                } else {
                    (AstView::Empty, ctx)
                },
                _ => (AstView::Empty, ctx),
            },
            Label::ProcedureOrFunctionCall => procedure_call(child, ctx),
            _ => (AstView::Empty, ctx),
        }
    }
}

/// term: a factor, then any number of: multiplicative operator, factor.
pub open spec fn term(node: Tree, ctx: Ctx) -> (AstView, Ctx)
    decreases node, 1nat, 0nat,
{
    if node.children.len() == 0 {
        (AstView::Empty, ctx)
    } else {
        let (first, c1) = factor(node.children[0], ctx);
        more_factors(node, 1, first, c1)
    }
}

/// The factors of a term from its part `i` on, combined from the left.
pub open spec fn more_factors(node: Tree, i: int, left: AstView, ctx: Ctx) -> (AstView, Ctx)
    decreases node, 0nat, parts_left(node, i),
{
    if i < 0 || i >= node.children.len() {
        (left, ctx)
    } else {
        match leaf_token(node.children[i]) {
            None => more_factors(node, i + 1, left, ctx),
            Some(token) => if i + 1 < node.children.len() {
                let (right, c1) = factor(node.children[i + 1], ctx);
                let (t, c2) = combine(
                    token.text,
                    "dan"@,
                    expr_type(left, c1.table),
                    expr_type(right, c1.table),
                    c1,
                );
                more_factors(
                    node,
                    i + 2,
                    AstView::BinOp {
                        op: token.text,
                        left: Box::new(left),
                        right: Box::new(right),
                        data_type: t,
                    },
                    c2,
                )
            } else {
                (left, ctx)
            },
        }
    }
}

/// simple-expression: a sign where one is written, a term, then any number
/// of: additive operator, term. A minus sign gives a negation of the type of
/// its operand; a plus sign gives the operand itself.
pub open spec fn simple_expression(node: Tree, ctx: Ctx) -> (AstView, Ctx)
    decreases node, 1nat, 0nat,
{
    if node.children.len() == 0 {
        (AstView::Empty, ctx)
    } else if is_leaf_with(node.children[0], "-"@) || is_leaf_with(node.children[0], "+"@) {
        let (operand, c1) = if node.children.len() > 1 {
            term(node.children[1], ctx)
        } else {
            (AstView::Empty, ctx)
        };
        let first = if is_leaf_with(node.children[0], "-"@) {
            AstView::UnaryOp {
                op: "-"@,
                operand: Box::new(operand),
                data_type: expr_type(operand, c1.table),
            }
        } else {
            operand
        };
        more_terms(node, 2, first, c1)
    } else {
        let (first, c1) = term(node.children[0], ctx);
        more_terms(node, 1, first, c1)
    }
}

/// The terms of a simple expression from its part `i` on, combined from the
/// left.
pub open spec fn more_terms(node: Tree, i: int, left: AstView, ctx: Ctx) -> (AstView, Ctx)
    decreases node, 0nat, parts_left(node, i),
{
    if i < 0 || i >= node.children.len() {
        (left, ctx)
    } else {
        match leaf_token(node.children[i]) {
            None => more_terms(node, i + 1, left, ctx),
            Some(token) => if i + 1 < node.children.len() {
                let (right, c1) = term(node.children[i + 1], ctx);
                let (t, c2) = combine(
                    token.text,
                    "atau"@,
                    expr_type(left, c1.table),
                    expr_type(right, c1.table),
                    c1,
                );
                more_terms(
                    node,
                    i + 2,
                    AstView::BinOp {
                        op: token.text,
                        left: Box::new(left),
                        right: Box::new(right),
                        data_type: t,
                    },
                    c2,
                )
            } else {
                (left, ctx)
            },
        }
    }
}

/// expression: a simple expression, or a comparison of two. A comparison is
/// boolean whatever its operands are; operands that cannot be compared are
/// reported.
pub open spec fn expression(node: Tree, ctx: Ctx) -> (AstView, Ctx)
    decreases node, 1nat, 0nat,
{
    if node.children.len() == 1 {
        simple_expression(node.children[0], ctx)
    } else if node.children.len() == 3 {
        let (left, c1) = simple_expression(node.children[0], ctx);
        let op = match leaf_token(node.children[1]) {
            Some(token) => token.text,
            None => "="@,
        };
        let (right, c2) = simple_expression(node.children[2], c1);
        let lt = expr_type(left, c2.table);
        let rt = expr_type(right, c2.table);
        let c3 = if compatible(lt, rt) {
            c2
        } else {
            c2.report(invalid_operation(op, both_types(lt, rt)))
        };
        (
            AstView::BinOp {
                op,
                left: Box::new(left),
                right: Box::new(right),
                data_type: DataTypeView::Boolean,
            },
            c3,
        )
    } else {
        (AstView::Empty, ctx)
    }
}

/// The arguments of a call from part `i` of its list on: one for each
/// expression.
pub open spec fn arguments_from(node: Tree, i: int, acc: Seq<AstView>, ctx: Ctx) -> (
    Seq<AstView>,
    Ctx,
)
    decreases node, 0nat, parts_left(node, i),
{
    if i < 0 || i >= node.children.len() {
        (acc, ctx)
    } else if node.children[i].label is Expression {
        let (arg, c1) = expression(node.children[i], ctx);
        arguments_from(node, i + 1, acc.push(arg), c1)
    } else {
        arguments_from(node, i + 1, acc, ctx)
    }
}

/// parameter-list: the arguments of a call, in order.
pub open spec fn parameter_list(node: Tree, ctx: Ctx) -> (Seq<AstView>, Ctx)
    decreases node, 1nat, 0nat,
{
    arguments_from(node, 0, Seq::empty(), ctx)
}

/// The index of the first part from `i` on that is a parameter list.
pub open spec fn parameter_list_index(node: Tree, i: int) -> Option<int>
    decreases node.children.len() - i,
{
    if i < 0 || i >= node.children.len() {
        None
    } else if node.children[i].label is ParameterList {
        Some(i)
    } else {
        parameter_list_index(node, i + 1)
    }
}

/// A call, as a statement or inside an expression. A name that resolves to
/// nothing is reported, and the call gives no node.
pub open spec fn procedure_call(node: Tree, ctx: Ctx) -> (AstView, Ctx)
    decreases node, 1nat, 0nat,
{
    if node.children.len() == 0 {
        (AstView::Empty, ctx)
    } else {
        match leaf_token(node.children[0]) {
            None => (AstView::Empty, ctx),
            Some(token) => match ctx.table.lookup(token.text) {
                None => (AstView::Empty, ctx.report(undeclared(token.text))),
                Some(index) => {
                    let (args, c1) = if node.children.len() > 2 {
                        match parameter_list_index(node, 0) {
                            Some(k) => if 0 <= k < node.children.len() {
                                parameter_list(node.children[k], ctx)
                            } else {
                                (Seq::empty(), ctx)
                            },
                            None => (Seq::empty(), ctx),
                        }
                    } else {
                        (Seq::empty(), ctx)
                    };
                    (AstView::ProcCall { name: token.text, args, tab_index: index }, c1)
                },
            },
        }
    }
}

/// assignment-statement: the target must resolve, or the statement is
/// reported and gives no node. The node has the target's declared type, and
/// a value that cannot be assigned to it is reported.
pub open spec fn assignment(node: Tree, ctx: Ctx) -> (AstView, Ctx)
    decreases node, 1nat, 0nat,
{
    if node.children.len() == 0 {
        (AstView::Empty, ctx)
    } else {
        match leaf_token(node.children[0]) {
            None => (AstView::Empty, ctx),
            Some(token) => match ctx.table.lookup(token.text) {
                None => (AstView::Empty, ctx.report(undeclared(token.text))),
                Some(index) => {
                    let var_type = ctx.table.tab[index as int].data_type;
                    let target = AstView::Var {
                        name: token.text,
                        data_type: var_type,
                        tab_index: index,
                        level: ctx.table.tab[index as int].level,
                    };
                    let (value, c1) = if node.children.len() > 2 {
                        expression(node.children[2], ctx)
                    } else {
                        (AstView::Empty, ctx)
                    };
                    let value_type = expr_type(value, c1.table);
                    let c2 = if assignable(var_type, value_type) {
                        c1
                    } else {
                        c1.report(
                            type_mismatch(name_of_type(var_type), name_of_type(value_type)),
                        )
                    };
                    (
                        AstView::Assign {
                            target: Box::new(target),
                            value: Box::new(value),
                            data_type: var_type,
                        },
                        c2,
                    )
                },
            },
        }
    }
}

/// The statement at part `i` of a node, or no node where that part is
/// missing.
pub open spec fn statement_at(node: Tree, i: int, ctx: Ctx) -> (AstView, Ctx)
    decreases node, 0nat, 0nat,
{
    if 0 <= i < node.children.len() {
        statement(node.children[i], ctx)
    } else {
        (AstView::Empty, ctx)
    }
}

/// The expression at part `i` of a node, or no node where that part is
/// missing.
pub open spec fn expression_at(node: Tree, i: int, ctx: Ctx) -> (AstView, Ctx)
    decreases node, 0nat, 0nat,
{
    if 0 <= i < node.children.len() {
        expression(node.children[i], ctx)
    } else {
        (AstView::Empty, ctx)
    }
}

/// The condition at part `i` of a node and the state after it was checked:
/// a condition that is not boolean is reported and kept as it is.
pub open spec fn condition_at(node: Tree, i: int, ctx: Ctx) -> (AstView, Ctx)
    decreases node, 0nat, 1nat,
{
    let (cond, c1) = expression_at(node, i, ctx);
    if expr_type(cond, c1.table) is Boolean {
        (cond, c1)
    } else {
        (cond, c1.report(diagnostic(ErrorKindView::ConditionNotBoolean, None)))
    }
}

/// if-statement: condition, statement, and a second statement where the
/// node has one.
pub open spec fn if_statement(node: Tree, ctx: Ctx) -> (AstView, Ctx)
    decreases node, 1nat, 0nat,
{
    let (cond, c1) = condition_at(node, 1, ctx);
    let (then_stmt, c2) = statement_at(node, 3, c1);
    if node.children.len() > 5 {
        let (else_stmt, c3) = statement_at(node, 5, c2);
        (
            AstView::If {
                condition: Box::new(cond),
                then_stmt: Box::new(then_stmt),
                else_stmt: Some(Box::new(else_stmt)),
            },
            c3,
        )
    } else {
        (
            AstView::If {
                condition: Box::new(cond),
                then_stmt: Box::new(then_stmt),
                else_stmt: None,
            },
            c2,
        )
    }
}

/// while-statement: condition and statement.
pub open spec fn while_statement(node: Tree, ctx: Ctx) -> (AstView, Ctx)
    decreases node, 1nat, 0nat,
{
    let (cond, c1) = condition_at(node, 1, ctx);
    let (body, c2) = statement_at(node, 3, c1);
    (AstView::While { condition: Box::new(cond), body: Box::new(body) }, c2)
}

/// for-statement: the loop variable must resolve, or the statement is
/// reported and gives no node; a loop variable that is no integer is
/// reported. The direction is kept as a flag.
pub open spec fn for_statement(node: Tree, ctx: Ctx) -> (AstView, Ctx)
    decreases node, 1nat, 0nat,
{
    if node.children.len() < 2 {
        (AstView::Empty, ctx)
    } else {
        match leaf_token(node.children[1]) {
            None => (AstView::Empty, ctx),
            Some(token) => match ctx.table.lookup(token.text) {
                None => (AstView::Empty, ctx.report(undeclared(token.text))),
                Some(index) => {
                    let c1 = if ctx.table.tab[index as int].data_type is Integer {
                        ctx
                    } else {
                        ctx.report(diagnostic(ErrorKindView::InvalidLoopVariable, None))
                    };
                    let (start, c2) = expression_at(node, 3, c1);
                    let is_downto = node.children.len() > 4 && is_leaf_with(
                        node.children[4],
                        "turun_ke"@,
                    );
                    let (end, c3) = expression_at(node, 5, c2);
                    let (body, c4) = statement_at(node, 7, c3);
                    (
                        AstView::For {
                            var_name: token.text,
                            start: Box::new(start),
                            end: Box::new(end),
                            is_downto,
                            body: Box::new(body),
                            tab_index: index,
                        },
                        c4,
                    )
                },
            },
        }
    }
}

/// statement: chosen by the node's label. A node that is no statement
/// gives no node.
pub open spec fn statement(node: Tree, ctx: Ctx) -> (AstView, Ctx)
    decreases node, 3nat, 0nat,
{
    match node.label {
        Label::AssignmentStatement => assignment(node, ctx),
        Label::IfStatement => if_statement(node, ctx),
        Label::WhileStatement => while_statement(node, ctx),
        Label::ForStatement => for_statement(node, ctx),
        Label::ProcedureOrFunctionCall => procedure_call(node, ctx),
        Label::CompoundStatement => compound_statement(node, ctx),
        _ => (AstView::Empty, ctx),
    }
}

/// The statements of a list from its part `i` on: the separators are
/// passed over, and so is whatever gives no node.
pub open spec fn statements_from(node: Tree, i: int, acc: Seq<AstView>, ctx: Ctx) -> (
    Seq<AstView>,
    Ctx,
)
    decreases node, 0nat, parts_left(node, i),
{
    if i < 0 || i >= node.children.len() {
        (acc, ctx)
    } else if node.children[i].label is Terminal {
        statements_from(node, i + 1, acc, ctx)
    } else {
        let (stmt, c1) = statement(node.children[i], ctx);
        statements_from(
            node,
            i + 1,
            if stmt is Empty {
                acc
            } else {
                acc.push(stmt)
            },
            c1,
        )
    }
}

/// statement-list: the statements, in order.
pub open spec fn statement_list(node: Tree, ctx: Ctx) -> (Seq<AstView>, Ctx)
    decreases node, 1nat, 0nat,
{
    statements_from(node, 0, Seq::empty(), ctx)
}

/// compound-statement: a block of the statements between its keywords.
pub open spec fn compound_statement(node: Tree, ctx: Ctx) -> (AstView, Ctx)
    decreases node, 1nat, 0nat,
{
    if node.children.len() >= 2 {
        let (statements, c1) = statement_list(node.children[1], ctx);
        (AstView::Block { statements }, c1)
    } else {
        (AstView::Empty, ctx)
    }
}

/// The type that a name stands for: one of the four predefined types, the
/// type of what the name resolves to, or a type known by this name only.
#[verifier::opaque]
pub open spec fn named_type(name: Seq<char>, table: TableView) -> DataTypeView {
    if name == "integer"@ {
        DataTypeView::Integer
    } else if name == "real"@ {
        DataTypeView::Real
    } else if name == "boolean"@ {
        DataTypeView::Boolean
    } else if name == "char"@ {
        DataTypeView::Char
    } else {
        match table.lookup(name) {
            Some(index) => table.tab[index as int].data_type,
            None => DataTypeView::UserDefined(name),
        }
    }
}

/// How many elements an array with the given bounds has, times the size of
/// one: nothing where the bounds are the wrong way round, and the largest
/// number there is where the count does not fit.
pub open spec fn array_size(low: i32, high: i32) -> usize {
    if high < low {
        0
    } else if high - low + 1 > usize::MAX {
        usize::MAX
    } else {
        (high - low + 1) as usize
    }
}

/// The record of an array type with the given bounds and element type.
pub open spec fn array_entry(low: i32, high: i32, element_type: DataTypeView) -> ATabEntryView {
    ATabEntryView {
        index_type: DataTypeView::Integer,
        element_type,
        element_ref: None,
        low_bound: low,
        high_bound: high,
        element_size: 1,
        total_size: array_size(low, high),
    }
}

/// range: the two bounds, each 0 unless it is a literal whole number. Bounds
/// the wrong way round are reported and kept.
pub open spec fn range(node: Tree, ctx: Ctx) -> (i32, i32, Ctx)
    decreases node, 1nat, 0nat,
{
    let (low_expr, c1) = expression_at(node, 0, ctx);
    let (high_expr, c2) = expression_at(node, 2, c1);
    let low = match literal_int(low_expr) {
        Some(v) => v,
        None => 0i32,
    };
    let high = match literal_int(high_expr) {
        Some(v) => v,
        None => 0i32,
    };
    if low > high {
        (low, high, c2.report(diagnostic(ErrorKindView::InvalidArrayBounds, None)))
    } else {
        (low, high, c2)
    }
}

/// The array type whose first range is part `k` of an array node. Where a
/// comma follows the range, the elements are arrays over the ranges that
/// follow; else their type is what stands behind the bracket. The element
/// type is registered before the array itself.
pub open spec fn array_from(node: Tree, k: int, ctx: Ctx) -> (DataTypeView, Ctx)
    decreases node, 0nat, parts_left(node, k),
{
    if k < 0 || k >= node.children.len() {
        (DataTypeView::Unknown, ctx)
    } else {
        let (low, high, c1) = range(node.children[k], ctx);
        let (element_type, c2) = if k + 2 < node.children.len() && is_leaf_with(
            node.children[k + 1],
            ","@,
        ) {
            array_from(node, k + 2, c1)
        } else if k + 3 < node.children.len() {
            get_type(node.children[k + 3], c1)
        } else {
            (DataTypeView::Unknown, c1)
        };
        (
            DataTypeView::Array(c2.table.atab.len()),
            c2.on(c2.table.insert_array(array_entry(low, high, element_type))),
        )
    }
}

/// type: a named type or an array type. A record type is not worked out.
pub open spec fn get_type(node: Tree, ctx: Ctx) -> (DataTypeView, Ctx)
    decreases node, 1nat, 0nat,
{
    if node.children.len() == 0 {
        (DataTypeView::Unknown, ctx)
    } else {
        let child = node.children[0];
        match child.label {
            Label::Terminal(token) => (named_type(token.text, ctx.table), ctx),
            Label::ArrayType => array_from(child, 2, ctx),
            _ => (DataTypeView::Unknown, ctx),
        }
    }
}

/// The type at part `i` of a node, or no type where that part is missing.
pub open spec fn type_at(node: Tree, i: int, ctx: Ctx) -> (DataTypeView, Ctx)
    decreases node, 0nat, 0nat,
{
    if 0 <= i < node.children.len() {
        get_type(node.children[i], ctx)
    } else {
        (DataTypeView::Unknown, ctx)
    }
}

/// Declares the variables `names[k..]` of one type, each with a node of its
/// own. A name that the innermost block already holds is reported and left
/// out.
pub open spec fn declare_variables(
    names: Seq<Seq<char>>,
    k: int,
    data_type: DataTypeView,
    level: usize,
    acc: Seq<AstView>,
    ctx: Ctx,
) -> (Seq<AstView>, Ctx)
    decreases names.len() - k,
{
    if k < 0 || k >= names.len() {
        (acc, ctx)
    } else if ctx.table.lookup_current_scope(names[k]) is Some {
        declare_variables(names, k + 1, data_type, level, acc, ctx.report(redeclared(names[k])))
    } else {
        let index = ctx.table.tab.len() as usize;
        let table = ctx.table.insert(
            new_entry(names[k], ObjectKind::Variable, data_type, None, level),
        ).add_var_size(1);
        declare_variables(
            names,
            k + 1,
            data_type,
            level,
            acc.push(
                AstView::VarDecl {
                    names: seq![names[k]],
                    data_type,
                    tab_indices: seq![index],
                    level,
                },
            ),
            ctx.on(table),
        )
    }
}

/// The groups of a variable declaration from its part `i` on: each group is
/// an identifier list, a colon, a type and a semicolon.
pub open spec fn var_groups(node: Tree, i: int, acc: Seq<AstView>, ctx: Ctx) -> (Seq<AstView>, Ctx)
    decreases node, 0nat, parts_left(node, i),
{
    if i < 0 || i >= node.children.len() {
        (acc, ctx)
    } else {
        let names = identifier_list(node.children[i]);
        let (data_type, c1) = type_at(node, i + 2, ctx);
        let (acc1, c2) = declare_variables(
            names,
            0,
            data_type,
            c1.table.current_level(),
            acc,
            c1,
        );
        var_groups(node, i + 4, acc1, c2)
    }
}

/// var-declaration: one node for every variable.
pub open spec fn var_declaration(node: Tree, ctx: Ctx) -> (Seq<AstView>, Ctx)
    decreases node, 1nat, 0nat,
{
    var_groups(node, 1, Seq::empty(), ctx)
}

/// The constants of a constant declaration from its part `i` on: each is an
/// identifier, `=`, an expression and a semicolon. The expression is worked
/// out first; then a name that the innermost block already holds is
/// reported and left out.
pub open spec fn const_items(node: Tree, i: int, acc: Seq<AstView>, ctx: Ctx) -> (Seq<AstView>, Ctx)
    decreases node, 0nat, parts_left(node, i),
{
    if i < 0 || i >= node.children.len() {
        (acc, ctx)
    } else {
        match leaf_token(node.children[i]) {
            None => const_items(node, i + 1, acc, ctx),
            Some(token) => {
                let (value, c1) = expression_at(node, i + 2, ctx);
                let data_type = expr_type(value, c1.table);
                if c1.table.lookup_current_scope(token.text) is Some {
                    const_items(node, i + 4, acc, c1.report(redeclared(token.text)))
                } else {
                    let index = c1.table.tab.len() as usize;
                    let table = c1.table.insert(
                        new_entry(
                            token.text,
                            ObjectKind::Constant,
                            data_type,
                            None,
                            c1.table.current_level(),
                        ),
                    );
                    const_items(
                        node,
                        i + 4,
                        acc.push(
                            AstView::ConstDecl {
                                name: token.text,
                                value: Box::new(value),
                                data_type,
                                tab_index: index,
                            },
                        ),
                        c1.on(table),
                    )
                }
            },
        }
    }
}

/// const-declaration: one node for every constant.
pub open spec fn const_declaration(node: Tree, ctx: Ctx) -> (Seq<AstView>, Ctx)
    decreases node, 1nat, 0nat,
{
    const_items(node, 1, Seq::empty(), ctx)
}

/// The types of a type declaration from its part `i` on: each is an
/// identifier, `=`, a type and a semicolon.
pub open spec fn type_items(node: Tree, i: int, acc: Seq<AstView>, ctx: Ctx) -> (Seq<AstView>, Ctx)
    decreases node, 0nat, parts_left(node, i),
{
    if i < 0 || i >= node.children.len() {
        (acc, ctx)
    } else {
        match leaf_token(node.children[i]) {
            None => type_items(node, i + 1, acc, ctx),
            Some(token) => {
                let (type_def, c1) = type_at(node, i + 2, ctx);
                if c1.table.lookup_current_scope(token.text) is Some {
                    type_items(node, i + 4, acc, c1.report(redeclared(token.text)))
                } else {
                    let index = c1.table.tab.len() as usize;
                    let table = c1.table.insert(
                        new_entry(
                            token.text,
                            ObjectKind::Type,
                            type_def,
                            None,
                            c1.table.current_level(),
                        ),
                    );
                    type_items(
                        node,
                        i + 4,
                        acc.push(
                            AstView::TypeDecl { name: token.text, type_def, tab_index: index },
                        ),
                        c1.on(table),
                    )
                }
            },
        }
    }
}

/// type-declaration: one node for every type.
pub open spec fn type_declaration(node: Tree, ctx: Ctx) -> (Seq<AstView>, Ctx)
    decreases node, 1nat, 0nat,
{
    type_items(node, 1, Seq::empty(), ctx)
}

/// Declares the parameters `names[k..]` of one type in the innermost block,
/// and gathers their indices.
pub open spec fn declare_parameters(
    names: Seq<Seq<char>>,
    k: int,
    data_type: DataTypeView,
    indices: Seq<usize>,
    ctx: Ctx,
) -> (Seq<usize>, Ctx)
    decreases names.len() - k,
{
    if k < 0 || k >= names.len() {
        (indices, ctx)
    } else {
        let index = ctx.table.tab.len() as usize;
        let table = ctx.table.insert(
            new_entry(
                names[k],
                ObjectKind::Parameter,
                data_type,
                None,
                ctx.table.current_level(),
            ),
        );
        declare_parameters(names, k + 1, data_type, indices.push(index), ctx.on(table))
    }
}

/// The groups of a formal parameter list from its part `i` on, up to the
/// closing parenthesis: each group is an identifier list, a colon and a
/// type, with `variabel` in front and a semicolon behind where they are
/// written.
pub open spec fn parameter_groups(node: Tree, i: int, acc: Seq<AstView>, ctx: Ctx) -> (
    Seq<AstView>,
    Ctx,
)
    decreases node, 0nat, parts_left(node, i),
{
    if i < 0 || i + 1 >= node.children.len() {
        (acc, ctx)
    } else {
        let j = if is_leaf_with(node.children[i], "variabel"@) {
            i + 1
        } else {
            i
        };
        let names = if j < node.children.len() {
            identifier_list(node.children[j])
        } else {
            Seq::empty()
        };
        let (data_type, c1) = type_at(node, j + 2, ctx);
        let (indices, c2) = declare_parameters(names, 0, data_type, Seq::empty(), c1);
        let group = AstView::ParamDecl { names, data_type, is_var: false, tab_indices: indices };
        let k = if j + 4 < node.children.len() && node.children[j + 3].label is Terminal {
            j + 4
        } else {
            j + 3
        };
        parameter_groups(node, k, acc.push(group), c2)
    }
}

/// formal-parameter-list: one node for every group.
pub open spec fn formal_parameter_list(node: Tree, ctx: Ctx) -> (Seq<AstView>, Ctx)
    decreases node, 1nat, 0nat,
{
    parameter_groups(node, 1, Seq::empty(), ctx)
}

/// The parameters, declarations and body of a subprogram, worked out inside
/// its block. The parameters are at part `params` where there is one, the
/// declarations at part `rest` and the body behind them.
pub open spec fn subprogram_parts(node: Tree, params: Option<int>, rest: int, ctx: Ctx) -> (
    Seq<AstView>,
    Seq<AstView>,
    AstView,
    Ctx,
)
    decreases node, 0nat, 0nat,
{
    let (parameters, c1) = match params {
        Some(p) => if 0 <= p < node.children.len() {
            formal_parameter_list(node.children[p], ctx)
        } else {
            (Seq::empty(), ctx)
        },
        None => (Seq::empty(), ctx),
    };
    let (declarations, c2) = if 0 <= rest < node.children.len() {
        declaration_part(node.children[rest], c1)
    } else {
        (Seq::empty(), c1)
    };
    let (body, c3) = if 0 <= rest + 1 < node.children.len() {
        compound_statement(node.children[rest + 1], c2)
    } else {
        (AstView::Empty, c2)
    };
    (parameters, declarations, body, c3)
}

/// The name of a subprogram, at part 1 of its declaration.
pub open spec fn subprogram_name(node: Tree) -> Seq<char> {
    if node.children.len() > 1 {
        match leaf_token(node.children[1]) {
            Some(token) => token.text,
            None => "unknown"@,
        }
    } else {
        "unknown"@
    }
}

/// Whether part 2 of a subprogram declaration is a formal parameter list.
pub open spec fn has_parameters(node: Tree) -> bool {
    node.children.len() > 2 && node.children[2].label is FormalParameterList
}

/// procedure-declaration. A name that the enclosing block already holds is
/// reported. A block is allotted for the procedure and closed again; the
/// name is then declared in the enclosing block, with the new block as its
/// reference; and the same block is opened again for the parameters, the
/// declarations and the body. So the name is seen from outside and from
/// inside, and no local of the procedure can hide it from outside.
pub open spec fn procedure_declaration(node: Tree, ctx: Ctx) -> (AstView, Ctx)
    decreases node, 1nat, 0nat,
{
    let name = subprogram_name(node);
    let c0 = if ctx.table.lookup_current_scope(name) is Some {
        ctx.report(redeclared(name))
    } else {
        ctx
    };
    let block = c0.table.btab.len() as usize;
    let outer = c0.table.enter_block().exit_block();
    let index = outer.tab.len() as usize;
    let declared = outer.insert(
        new_entry(
            name,
            ObjectKind::Procedure,
            DataTypeView::Void,
            Some(block),
            outer.current_level(),
        ),
    );
    let c1 = c0.on(declared.reenter_block(block));
    let (params, rest) = if has_parameters(node) {
        (Some(2int), 4int)
    } else {
        (None, 3int)
    };
    let (parameters, declarations, body, c2) = subprogram_parts(node, params, rest, c1);
    (
        AstView::ProcDecl {
            name,
            params: parameters,
            declarations,
            body: Box::new(body),
            tab_index: index,
            block_index: block,
        },
        c2.on(c2.table.exit_block()),
    )
}

/// function-declaration: as a procedure, with a return type. The return
/// type is worked out while the new block is open for the first time.
pub open spec fn function_declaration(node: Tree, ctx: Ctx) -> (AstView, Ctx)
    decreases node, 1nat, 0nat,
{
    let name = subprogram_name(node);
    let c0 = if ctx.table.lookup_current_scope(name) is Some {
        ctx.report(redeclared(name))
    } else {
        ctx
    };
    let block = c0.table.btab.len() as usize;
    let (params, at) = if has_parameters(node) {
        (Some(2int), 4int)
    } else {
        (None, 3int)
    };
    let (return_type, c1) = type_at(node, at, c0.on(c0.table.enter_block()));
    let outer = c1.table.exit_block();
    let index = outer.tab.len() as usize;
    let declared = outer.insert(
        new_entry(name, ObjectKind::Function, return_type, Some(block), outer.current_level()),
    );
    let c2 = c1.on(declared.reenter_block(block));
    let (parameters, declarations, body, c3) = subprogram_parts(node, params, at + 2, c2);
    (
        AstView::FuncDecl {
            name,
            params: parameters,
            return_type,
            declarations,
            body: Box::new(body),
            tab_index: index,
            block_index: block,
        },
        c3.on(c3.table.exit_block()),
    )
}

/// subprogram-declaration: the procedure or function inside it.
pub open spec fn subprogram_declaration(node: Tree, ctx: Ctx) -> (Option<AstView>, Ctx)
    decreases node, 1nat, 0nat,
{
    if node.children.len() == 0 {
        (None, ctx)
    } else {
        let child = node.children[0];
        match child.label {
            Label::ProcedureDeclaration => {
                let (decl, c1) = procedure_declaration(child, ctx);
                (Some(decl), c1)
            },
            Label::FunctionDeclaration => {
                let (decl, c1) = function_declaration(child, ctx);
                (Some(decl), c1)
            },
            _ => (None, ctx),
        }
    }
}

/// The declarations of a declaration part from its part `i` on.
pub open spec fn declarations_from(node: Tree, i: int, acc: Seq<AstView>, ctx: Ctx) -> (
    Seq<AstView>,
    Ctx,
)
    decreases node, 0nat, parts_left(node, i),
{
    if i < 0 || i >= node.children.len() {
        (acc, ctx)
    } else {
        let child = node.children[i];
        match child.label {
            Label::ConstDeclaration => {
                let (more, c1) = const_declaration(child, ctx);
                declarations_from(node, i + 1, acc + more, c1)
            },
            Label::TypeDeclaration => {
                let (more, c1) = type_declaration(child, ctx);
                declarations_from(node, i + 1, acc + more, c1)
            },
            Label::VarDeclaration => {
                let (more, c1) = var_declaration(child, ctx);
                declarations_from(node, i + 1, acc + more, c1)
            },
            Label::SubprogramDeclaration => {
                let (decl, c1) = subprogram_declaration(child, ctx);
                declarations_from(
                    node,
                    i + 1,
                    match decl {
                        Some(d) => acc.push(d),
                        None => acc,
                    },
                    c1,
                )
            },
            _ => declarations_from(node, i + 1, acc, ctx),
        }
    }
}

/// declaration-part: the nodes of all its declarations, in order.
pub open spec fn declaration_part(node: Tree, ctx: Ctx) -> (Seq<AstView>, Ctx)
    decreases node, 1nat, 0nat,
{
    declarations_from(node, 0, Seq::empty(), ctx)
}

/// program: the name is declared in the global block, the declarations are
/// worked out there, and the body in a block of its own. A node that is no
/// program gives no node.
pub open spec fn program(node: Tree, ctx: Ctx) -> (AstView, Ctx) {
    if node.label is Program && node.children.len() >= 3 {
        let name = program_name(node.children[0]);
        let index = ctx.table.tab.len() as usize;
        let c1 = ctx.on(
            ctx.table.insert(
                new_entry(name, ObjectKind::Program, DataTypeView::Void, None, 0),
            ),
        );
        let (declarations, c2) = declaration_part(node.children[1], c1);
        let (body, c3) = compound_statement(node.children[2], c2.on(c2.table.enter_block()));
        (
            AstView::Program {
                name,
                declarations,
                body: Box::new(body),
                tab_index: Some(index),
            },
            c3.on(c3.table.exit_block()),
        )
    } else {
        (AstView::Empty, ctx)
    }
}

/// An integer is widened to a real. Where the target of an assignment is
/// declared real and the value is of type integer, the assignment adds no
/// diagnostic to those of its value, and its node has the type real.
pub proof fn law_integer_is_widened_to_real(node: Tree, ctx: Ctx, name: Seq<char>, index: usize)
    requires
        node.children.len() > 2,
        leaf_token(node.children[0]) matches Some(token) && token.text == name,
        ctx.table.lookup(name) == Some(index),
        ctx.table.tab[index as int].data_type is Real,
        expr_type(
            expression(node.children[2], ctx).0,
            expression(node.children[2], ctx).1.table,
        ) is Integer,
    ensures
        assignment(node, ctx).1 == expression(node.children[2], ctx).1,
        assignment(node, ctx).0 matches AstView::Assign { data_type, value, .. } && data_type
            is Real && *value == expression(node.children[2], ctx).0,
{
}

/// A real is not narrowed to an integer. Where the target of an assignment
/// is declared integer and the value is of type real, the assignment adds
/// exactly one diagnostic to those of its value, a type mismatch, and its
/// node still has the type integer.
pub proof fn law_real_is_not_narrowed(node: Tree, ctx: Ctx, name: Seq<char>, index: usize)
    requires
        node.children.len() > 2,
        leaf_token(node.children[0]) matches Some(token) && token.text == name,
        ctx.table.lookup(name) == Some(index),
        ctx.table.tab[index as int].data_type is Integer,
        expr_type(
            expression(node.children[2], ctx).0,
            expression(node.children[2], ctx).1.table,
        ) is Real,
    ensures
        assignment(node, ctx).1 == expression(node.children[2], ctx).1.report(
            type_mismatch(
                name_of_type(DataTypeView::Integer),
                name_of_type(DataTypeView::Real),
            ),
        ),
        assignment(node, ctx).1.errors.len() == expression(node.children[2], ctx).1.errors.len()
            + 1,
        assignment(node, ctx).1.errors.last().kind is TypeMismatch,
        assignment(node, ctx).0 matches AstView::Assign { data_type, .. } && data_type is Integer,
{
}

/// A name that resolves to nothing in an expression costs exactly one
/// diagnostic, and a node comes back all the same.
pub proof fn law_undeclared_name_is_reported_once(name: Seq<char>, ctx: Ctx)
    requires
        ctx.table.lookup(name) is None,
    ensures
        variable(name, ctx).1 == ctx.report(undeclared(name)),
        variable(name, ctx).1.errors.len() == ctx.errors.len() + 1,
        variable(name, ctx).1.table == ctx.table,
        variable(name, ctx).0 == placeholder(),
{
    reveal(variable);
}

/// A second declaration is reported and not entered. Where the innermost
/// block already holds a name, declaring a variable of that name adds one
/// diagnostic, leaves the table as it is and gives no node.
pub proof fn law_second_declaration_is_not_entered(
    name: Seq<char>,
    data_type: DataTypeView,
    level: usize,
    acc: Seq<AstView>,
    ctx: Ctx,
)
    requires
        ctx.table.lookup_current_scope(name) is Some,
    ensures
        declare_variables(seq![name], 0, data_type, level, acc, ctx) == (
            acc,
            ctx.report(redeclared(name)),
        ),
{
    reveal_with_fuel(declare_variables, 2);
}

} // verus!
