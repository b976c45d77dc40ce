//! Front end of a compiler for a Pascal-family teaching language with
//! localized keywords: a table-driven lexer, a recursive-descent parser and a
//! semantic analyzer that resolves names and types over a block-structured
//! symbol table.
//!
//! Data flows one way: text, tokens, parse tree, then the decorated tree with
//! its symbol table and diagnostics. Every stage is stated as a mathematical
//! function over views of the data, and the executable code is proved to
//! compute exactly that function.

pub mod ast;
pub mod dfa;
pub mod filler;
pub mod grammar;
pub mod growth;
pub mod lexer;
pub mod node;
pub mod number;
pub mod order;
pub mod parser;
pub mod round_trip;
pub mod scoping;
pub mod semantic_analyzer;
pub mod semantic_error;
pub mod semantics;
pub mod symbol_table;
pub mod text;
pub mod token;
pub mod types;
