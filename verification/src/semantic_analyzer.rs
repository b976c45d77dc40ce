//! The semantic analyzer: one pass over the parse tree that builds the
//! decorated tree, fills the symbol table and checks the types. It never
//! stops at an error: it records a diagnostic, puts a placeholder where the
//! construct should be, and goes on.

use crate::ast::{texts, AstNode, LiteralValue};
use crate::growth::{
    grown, law_analysis_closes_what_it_opens, law_analysis_keeps_the_table_well_formed,
    law_analysis_only_adds, law_the_tree_points_into_the_table,
};
use crate::scoping::indices_hold;
use crate::node::ParseNode;
use crate::number::{holds_point, is_real, parse_integer};
use crate::semantic_error::{error_views, SemanticError};
use crate::semantics;
use crate::semantics::Ctx;
use crate::symbol_table::{SymbolTable, TabEntry};
use crate::text::{join3, same_text};
use crate::token::TokenType;
use crate::types::{DataType, ObjectKind};
use vstd::prelude::*;

mod declarations;
mod expressions;
mod statements;

verus! {

/// The analyzer, with the symbol table it fills and the diagnostics it has
/// gathered. Both can be read after the analysis.
pub struct SemanticAnalyzer {
    pub symbol_table: SymbolTable,
    pub errors: Vec<SemanticError>,
}

impl View for SemanticAnalyzer {
    type V = Ctx;

    open spec fn view(&self) -> Ctx {
        Ctx { table: self.symbol_table@, errors: error_views(self.errors@) }
    }
}

/// Appends a name to a list of names.
pub fn push_name(names: &mut Vec<String>, name: String)
    ensures
        texts(final(names)@) == texts(old(names)@).push(name@),
{
    names.push(name);
    assert(texts(names@) =~= texts(old(names)@).push(name@));
}

/// The list that holds one name.
pub fn one_name(name: String) -> (names: Vec<String>)
    ensures
        texts(names@) == seq![name@],
{
    let mut names: Vec<String> = Vec::new();
    names.push(name);
    assert(texts(names@) =~= seq![name@]);
    names
}

/// The list that holds one index.
pub fn one_index(index: usize) -> (indices: Vec<usize>)
    ensures
        indices@ == seq![index],
{
    let mut indices: Vec<usize> = Vec::new();
    indices.push(index);
    assert(indices@ =~= seq![index]);
    indices
}

/// The index `d` places behind `i`, or the largest index there is where that
/// lies beyond it.
pub fn ahead(i: usize, d: usize) -> (r: usize)
    ensures
        r == if i + d > usize::MAX {
            usize::MAX as int
        } else {
            i + d
        },
{
    if i > usize::MAX - d {
        usize::MAX
    } else {
        i + d
    }
}

/// Whether a node is the leaf of a token with the given text.
pub fn is_leaf_with(node: &ParseNode, text: &str) -> (r: bool)
    ensures
        r == semantics::is_leaf_with(node@, text@),
{
    match node.token() {
        Some(token) => same_text(token.value.as_str(), text),
        None => false,
    }
}

/// How many elements an array with the given bounds has.
pub fn array_size(low: i32, high: i32) -> (r: usize)
    ensures
        r == semantics::array_size(low, high),
{
    if high < low {
        0
    } else {
        let n: u64 = (high as i64 - low as i64 + 1) as u64;
        if n as u128 > usize::MAX as u128 {
            usize::MAX
        } else {
            n as usize
        }
    }
}

/// The first character of a text, or a blank where it has none.
pub fn first_char(s: &str) -> (c: char)
    ensures
        c == if s@.len() > 0 {
            s@[0]
        } else {
            ' '
        },
{
    if s.unicode_len() > 0 {
        s.get_char(0)
    } else {
        ' '
    }
}

/// The literal that a number token stands for.
pub fn number_literal(text: &str) -> (r: AstNode)
    ensures
        r@ == semantics::number_literal(text@),
{
    proof {
        reveal(semantics::number_literal);
    }
    if holds_point(text) {
        if is_real(text) {
            AstNode::Literal { value: LiteralValue::Real(text.to_string()), data_type: DataType::Real }
        } else {
            AstNode::Empty
        }
    } else {
        match parse_integer(text) {
            Some(v) => AstNode::Literal {
                value: LiteralValue::Integer(v),
                data_type: DataType::Integer,
            },
            None => AstNode::Empty,
        }
    }
}

/// The literal that a keyword in an expression stands for.
pub fn boolean_literal(text: &str) -> (r: AstNode)
    ensures
        r@ == semantics::boolean_literal(text@),
{
    proof {
        reveal(semantics::boolean_literal);
    }
    if same_text(text, "true") {
        AstNode::Literal { value: LiteralValue::Boolean(true), data_type: DataType::Boolean }
    } else if same_text(text, "false") {
        AstNode::Literal { value: LiteralValue::Boolean(false), data_type: DataType::Boolean }
    } else {
        AstNode::Empty
    }
}

/// The record of a newly declared identifier.
pub fn new_entry(
    name: String,
    obj: ObjectKind,
    data_type: DataType,
    ref_index: Option<usize>,
    level: usize,
) -> (r: TabEntry)
    ensures
        r@ == semantics::new_entry(name@, obj, data_type@, ref_index, level),
{
    TabEntry { name, link: None, obj, data_type, ref_index, normal: true, level, address: 0 }
}

impl SemanticAnalyzer {
    /// An analyzer with a new symbol table and no diagnostics.
    pub fn new() -> (r: SemanticAnalyzer)
        ensures
            r@.table == crate::symbol_table::initial_table(),
            r@.errors == Seq::<crate::semantic_error::ErrorView>::empty(),
    {
        let r = SemanticAnalyzer { symbol_table: SymbolTable::new(), errors: Vec::new() };
        assert(r@.errors =~= Seq::<crate::semantic_error::ErrorView>::empty());
        r
    }

    /// Analyzes the parse tree of a program. It gives the decorated tree
    /// together with all diagnostics gathered so far, those of earlier calls
    /// included; the tree is complete whether or not there are diagnostics,
    /// and no diagnostic means that the program is valid. The symbol table is
    /// left filled. Nothing that was in the tables or among the diagnostics
    /// before is lost or changed, a well-formed table stays well formed,
    /// every index in the tree is an index of the table, and the blocks that
    /// were open before are the blocks that are open afterwards.
    pub fn analyze(&mut self, parse_tree: &ParseNode) -> (r: (AstNode, Vec<SemanticError>))
        ensures
            (r.0@, final(self)@) == semantics::program(parse_tree@, old(self)@),
            error_views(r.1@) == final(self)@.errors,
            grown(old(self)@, final(self)@),
            old(self)@.table.well_formed() ==> final(self)@.table.well_formed(),
            indices_hold(r.0@, final(self)@.table),
            old(self)@.table.display.len() >= 1 ==> final(self)@.table.display
                == old(self)@.table.display,
    {
        proof {
            law_analysis_only_adds(parse_tree@, old(self)@);
            if old(self)@.table.display.len() >= 1 {
                law_analysis_closes_what_it_opens(parse_tree@, old(self)@);
            }
            law_the_tree_points_into_the_table(parse_tree@, old(self)@);
            if old(self)@.table.well_formed() {
                law_analysis_keeps_the_table_well_formed(parse_tree@, old(self)@);
            }
        }
        let ast = self.visit_program(parse_tree);
        let mut diagnostics: Vec<SemanticError> = Vec::new();
        let mut i: usize = 0;
        while i < self.errors.len()
            invariant
                i <= self.errors.len(),
                diagnostics@.len() == i,
                forall|j: int| 0 <= j < i ==> (#[trigger] diagnostics@[j])@ == self.errors@[j]@,
            decreases self.errors.len() - i,
        {
            diagnostics.push(self.errors[i].clone());
            i = i + 1;
        }
        assert(error_views(diagnostics@) =~= error_views(self.errors@));
        (ast, diagnostics)
    }

    /// Records a diagnostic.
    pub fn report(&mut self, e: SemanticError)
        ensures
            final(self)@ == old(self)@.report(e@),
    {
        self.errors.push(e);
        assert(error_views(self.errors@) =~= error_views(old(self).errors@).push(e@));
    }

    fn visit_program(&mut self, node: &ParseNode) -> (r: AstNode)
        ensures
            (r@, final(self)@) == semantics::program(node@, old(self)@),
    {
        if matches!(node.kind(), crate::node::NodeType::Program) && node.len() >= 3 {
            let program_name = self.get_program_name(node.child(0));
            let tab_index = self.symbol_table.insert(
                new_entry(program_name.clone(), ObjectKind::Program, DataType::Void, None, 0),
            );
            let declarations = self.visit_declaration_part(node.child(1));
            self.symbol_table.enter_block();
            let body = self.visit_compound_statement(node.child(2));
            self.symbol_table.exit_block();
            AstNode::Program {
                name: program_name,
                declarations,
                body: Box::new(body),
                tab_index: Some(tab_index),
            }
        } else {
            AstNode::Empty
        }
    }

    /// The name in a program header.
    pub fn get_program_name(&self, node: &ParseNode) -> (r: String)
        ensures
            r@ == semantics::program_name(node@),
    {
        if node.len() > 1 {
            match node.child(1).token() {
                Some(token) => token.value.clone(),
                None => "Unknown".to_string(),
            }
        } else {
            "Unknown".to_string()
        }
    }

    /// The names in an identifier list.
    pub fn get_identifier_list(&self, node: &ParseNode) -> (r: Vec<String>)
        ensures
            texts(r@) == semantics::identifier_list(node@),
    {
        let mut ids: Vec<String> = Vec::new();
        assert(texts(ids@) =~= Seq::<Seq<char>>::empty());
        let mut i: usize = 0;
        while i < node.len()
            invariant
                semantics::identifier_list(node@) == semantics::names_from(
                    node@,
                    i as int,
                    texts(ids@),
                ),
            decreases node@.children.len() - i,
        {
            match node.child(i).token() {
                Some(token) => {
                    if token.token_type == TokenType::Identifier {
                        push_name(&mut ids, token.value.clone());
                    }
                },
                None => {},
            }
            i = i + 1;
        }
        ids
    }

    /// The type of an expression.
    pub fn get_expr_type(&self, node: &AstNode) -> (r: DataType)
        ensures
            r@ == semantics::expr_type(node@, self@.table),
    {
        match node {
            AstNode::Literal { data_type, .. } => data_type.clone(),
            AstNode::Var { data_type, .. } => data_type.clone(),
            AstNode::BinOp { data_type, .. } => data_type.clone(),
            AstNode::UnaryOp { data_type, .. } => data_type.clone(),
            AstNode::ProcCall { tab_index, .. } => {
                if *tab_index < self.symbol_table.tab.len() {
                    self.symbol_table.tab[*tab_index].data_type.clone()
                } else {
                    DataType::Unknown
                }
            },
            _ => DataType::Unknown,
        }
    }

    /// The whole number that an expression writes, if it is a literal one
    /// with signs in front or without.
    pub fn literal_value(node: &AstNode) -> (r: Option<i128>)
        ensures
            match r {
                Some(v) => semantics::literal_value(node@) == Some(v as int)
                    && -0x8000_0000_0000_0000 <= v <= 0x8000_0000_0000_0000,
                None => semantics::literal_value(node@) is None,
            },
        decreases node,
    {
        match node {
            AstNode::Literal { value, .. } => match value {
                LiteralValue::Integer(v) => Some(*v as i128),
                _ => None,
            },
            AstNode::UnaryOp { op, operand, .. } => match Self::literal_value(operand) {
                Some(v) => {
                    if same_text(op.as_str(), "-") {
                        Some(-v)
                    } else if same_text(op.as_str(), "+") {
                        Some(v)
                    } else {
                        None
                    }
                },
                None => None,
            },
            _ => None,
        }
    }

    /// The whole number that a bound of a range stands for, if it is a
    /// literal one that fits in 32 bits.
    pub fn get_literal_int(&self, node: &AstNode) -> (r: Option<i32>)
        ensures
            r == semantics::literal_int(node@),
    {
        match Self::literal_value(node) {
            Some(v) => {
                if -2147483648 <= v && v <= 2147483647 {
                    Some(v as i32)
                } else {
                    None
                }
            },
            None => None,
        }
    }

    /// How the types of two operands are written in a diagnostic.
    fn both_types(left: &DataType, right: &DataType) -> (r: String)
        ensures
            r@ == semantics::both_types(left@, right@),
    {
        join3(left.name().as_str(), " and ", right.name().as_str())
    }

    /// The type of a binary operation in a simple expression or a term.
    fn combine(&mut self, op: &str, word: &str, left: &DataType, right: &DataType) -> (r:
        DataType)
        ensures
            (r@, final(self)@) == semantics::combine(op@, word@, left@, right@, old(self)@),
    {
        proof {
            reveal(semantics::combine);
        }
        if same_text(op, word) {
            match DataType::get_logical_result_type(left, right) {
                Ok(t) => t,
                Err(_) => {
                    self.report(
                        SemanticError::invalid_operation(
                            op.to_string(),
                            Self::both_types(left, right),
                            None,
                        ),
                    );
                    DataType::Boolean
                },
            }
        } else {
            match DataType::get_arithmetic_result_type(left, right) {
                Ok(t) => t,
                Err(_) => {
                    self.report(
                        SemanticError::invalid_operation(
                            op.to_string(),
                            Self::both_types(left, right),
                            None,
                        ),
                    );
                    DataType::Unknown
                },
            }
        }
    }

    /// The type that a name stands for.
    fn named_type(&self, name: &str) -> (r: DataType)
        ensures
            r@ == semantics::named_type(name@, self@.table),
    {
        proof {
            reveal(semantics::named_type);
        }
        if same_text(name, "integer") {
            DataType::Integer
        } else if same_text(name, "real") {
            DataType::Real
        } else if same_text(name, "boolean") {
            DataType::Boolean
        } else if same_text(name, "char") {
            DataType::Char
        } else {
            match self.symbol_table.lookup(name) {
                Some(index) => self.symbol_table.tab[index].data_type.clone(),
                None => DataType::UserDefined(name.to_string()),
            }
        }
    }

    /// A name in an expression.
    fn variable(&mut self, name: &str) -> (r: AstNode)
        ensures
            (r@, final(self)@) == semantics::variable(name@, old(self)@),
    {
        proof {
            reveal(semantics::variable);
        }
        match self.symbol_table.lookup(name) {
            Some(index) => {
                let entry = &self.symbol_table.tab[index];
                AstNode::Var {
                    name: name.to_string(),
                    data_type: entry.data_type.clone(),
                    tab_index: index,
                    level: entry.level,
                }
            },
            None => {
                self.report(SemanticError::undeclared(name.to_string(), None));
                AstNode::Literal { value: LiteralValue::Integer(0), data_type: DataType::Unknown }
            },
        }
    }
}

} // verus!
