//! The parse tree: a leaf for every token, and an interior node for every
//! grammar rule that was applied, with its parts in source order.

use crate::token::{Token, TokenView};
use vstd::prelude::*;

verus! {

/// What a node of the parse tree stands for.
#[derive(Debug)]
pub enum NodeType {
    Program,
    ProgramHeader,
    DeclarationPart,
    ConstDeclaration,
    TypeDeclaration,
    VarDeclaration,
    IdentifierList,
    Type,
    ArrayType,
    Range,
    RecordType,
    SubprogramDeclaration,
    ProcedureDeclaration,
    FunctionDeclaration,
    FormalParameterList,
    CompoundStatement,
    StatementList,
    AssignmentStatement,
    IfStatement,
    WhileStatement,
    ForStatement,
    RepeatStatement,
    ProcedureOrFunctionCall,
    ParameterList,
    Expression,
    SimpleExpression,
    Term,
    Factor,
    /// A leaf: one token of the input.
    Terminal(Token),
}

/// A node's label as the contracts see it.
pub enum Label {
    Program,
    ProgramHeader,
    DeclarationPart,
    ConstDeclaration,
    TypeDeclaration,
    VarDeclaration,
    IdentifierList,
    Type,
    ArrayType,
    Range,
    RecordType,
    SubprogramDeclaration,
    ProcedureDeclaration,
    FunctionDeclaration,
    FormalParameterList,
    CompoundStatement,
    StatementList,
    AssignmentStatement,
    IfStatement,
    WhileStatement,
    ForStatement,
    RepeatStatement,
    ProcedureOrFunctionCall,
    ParameterList,
    Expression,
    SimpleExpression,
    Term,
    Factor,
    Terminal(TokenView),
}

impl View for NodeType {
    type V = Label;

    open spec fn view(&self) -> Label {
        match *self {
            NodeType::Program => Label::Program,
            NodeType::ProgramHeader => Label::ProgramHeader,
            NodeType::DeclarationPart => Label::DeclarationPart,
            NodeType::ConstDeclaration => Label::ConstDeclaration,
            NodeType::TypeDeclaration => Label::TypeDeclaration,
            NodeType::VarDeclaration => Label::VarDeclaration,
            NodeType::IdentifierList => Label::IdentifierList,
            NodeType::Type => Label::Type,
            NodeType::ArrayType => Label::ArrayType,
            NodeType::Range => Label::Range,
            NodeType::RecordType => Label::RecordType,
            NodeType::SubprogramDeclaration => Label::SubprogramDeclaration,
            NodeType::ProcedureDeclaration => Label::ProcedureDeclaration,
            NodeType::FunctionDeclaration => Label::FunctionDeclaration,
            NodeType::FormalParameterList => Label::FormalParameterList,
            NodeType::CompoundStatement => Label::CompoundStatement,
            NodeType::StatementList => Label::StatementList,
            NodeType::AssignmentStatement => Label::AssignmentStatement,
            NodeType::IfStatement => Label::IfStatement,
            NodeType::WhileStatement => Label::WhileStatement,
            NodeType::ForStatement => Label::ForStatement,
            NodeType::RepeatStatement => Label::RepeatStatement,
            NodeType::ProcedureOrFunctionCall => Label::ProcedureOrFunctionCall,
            NodeType::ParameterList => Label::ParameterList,
            NodeType::Expression => Label::Expression,
            NodeType::SimpleExpression => Label::SimpleExpression,
            NodeType::Term => Label::Term,
            NodeType::Factor => Label::Factor,
            NodeType::Terminal(token) => Label::Terminal(token@),
        }
    }
}

/// A node of the parse tree and the subtrees below it, in source order.
#[derive(Debug)]
pub struct ParseNode {
    pub node_type: NodeType,
    pub children: Vec<ParseNode>,
}

/// A parse tree as the contracts see it.
pub struct Tree {
    pub label: Label,
    pub children: Seq<Tree>,
}

/// The tree that a node and everything below it stand for.
pub open spec fn tree_of(node: ParseNode) -> Tree
    decreases node,
{
    Tree {
        label: node.node_type@,
        children: Seq::new(
            node.children@.len(),
            |i: int|
                if 0 <= i < node.children@.len() {
                    tree_of(node.children@[i])
                } else {
                    leaf_less(Label::Program)
                },
        ),
    }
}

impl View for ParseNode {
    type V = Tree;

    open spec fn view(&self) -> Tree {
        tree_of(*self)
    }
}

/// An interior node that has no parts yet.
pub open spec fn leaf_less(label: Label) -> Tree {
    Tree { label, children: Seq::empty() }
}

/// The leaf for a token.
pub open spec fn leaf(token: TokenView) -> Tree {
    Tree { label: Label::Terminal(token), children: Seq::empty() }
}

/// The tokens at the leaves of a tree, read from left to right.
pub open spec fn leaves(tree: Tree) -> Seq<TokenView>
    decreases tree,
{
    match tree.label {
        Label::Terminal(token) => seq![token],
        _ => forest_leaves(tree.children),
    }
}

/// The tokens at the leaves of a row of trees, read from left to right.
pub open spec fn forest_leaves(trees: Seq<Tree>) -> Seq<TokenView>
    decreases trees,
{
    if trees.len() == 0 {
        Seq::empty()
    } else {
        forest_leaves(trees.drop_last()) + leaves(trees.last())
    }
}

impl Tree {
    /// The tree with one more part at the right.
    pub open spec fn with_child(self, child: Tree) -> Tree {
        Tree { label: self.label, children: self.children.push(child) }
    }
}

impl ParseNode {
    /// An interior node with no parts yet.
    pub fn new(node_type: NodeType) -> (r: ParseNode)
        ensures
            r@ == leaf_less(node_type@),
    {
        let r = ParseNode { node_type, children: Vec::new() };
        assert(r@.children =~= Seq::empty());
        r
    }

    /// The leaf for a token.
    pub fn new_terminal(token: Token) -> (r: ParseNode)
        ensures
            r@ == leaf(token@),
    {
        let r = ParseNode { node_type: NodeType::Terminal(token), children: Vec::new() };
        assert(r@.children =~= Seq::empty());
        r
    }

    /// How many parts the node has.
    pub fn len(&self) -> (n: usize)
        ensures
            n == self@.children.len(),
    {
        self.children.len()
    }

    /// The part at index `i`.
    pub fn child(&self, i: usize) -> (part: &ParseNode)
        requires
            i < self@.children.len(),
        ensures
            part@ == self@.children[i as int],
    {
        &self.children[i]
    }

    /// What the node stands for.
    pub fn kind(&self) -> (node_type: &NodeType)
        ensures
            node_type@ == self@.label,
    {
        &self.node_type
    }

    /// The token of a leaf, and nothing for an interior node.
    pub fn token(&self) -> (r: Option<&Token>)
        ensures
            match r {
                Some(token) => self@.label == Label::Terminal(token@),
                None => !(self@.label is Terminal),
            },
    {
        match &self.node_type {
            NodeType::Terminal(token) => Some(token),
            _ => None,
        }
    }

    /// Appends a part at the right. Below an interior node, the leaves of
    /// the new part follow those that were there.
    pub fn add(&mut self, child: ParseNode)
        ensures
            final(self)@ == old(self)@.with_child(child@),
            !(old(self)@.label is Terminal) ==> leaves(final(self)@) == leaves(old(self)@) + leaves(
                child@,
            ),
    {
        self.children.push(child);
        assert(self@.children =~= old(self)@.children.push(child@));
        assert(self@.children.drop_last() =~= old(self)@.children);
    }
}

} // verus!
