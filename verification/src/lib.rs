//! A lexer and recursive-descent parser for a small expression-oriented
//! language: function declarations, `if`/`return` statements, arithmetic and
//! relational expressions, and function calls.
//!
//! Source text flows one way: characters enter the finite-state scanner in
//! [`lexer`], the resulting tokens are consumed through the one-token-lookahead
//! cursor in [`token_stream`], and the grammar productions in [`parser`] build
//! a typed abstract syntax tree. [`graphviz`] renders any tree as a graph
//! description (labels plus directed edges) for visualization.

pub mod graphviz;
pub mod lexer;
pub mod parser;
pub mod token_stream;
