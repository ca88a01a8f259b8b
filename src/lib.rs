//! A tree-walking interpreter for a small, dynamically typed expression
//! language: a lexer, a Pratt parser and an evaluator with closures.
pub mod text;
pub mod token;
pub mod lexer;
pub mod ast;
pub mod parser;
pub mod object;
pub mod environment;
pub mod evaluator;
pub mod laws;
pub mod printer;
