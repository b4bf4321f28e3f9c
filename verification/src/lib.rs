//! A front end for a small imperative language: a maximal-munch tokenizer
//! and a predictive LL(1) parser driven by a static grammar table.

pub mod lexer;
pub mod ll1_table;
pub mod parser;
pub mod token;
