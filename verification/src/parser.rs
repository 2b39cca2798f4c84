//! The recursive-descent parser, in two layers: the precedence-layered
//! expression grammar in [`bin_op`], and the statement and declaration
//! grammar on top of it in [`parser`].

pub mod bin_op;
pub mod parser;
