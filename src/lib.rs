//! A tree-walking interpreter for a small dynamically typed language of the
//! Lox family: a lexer, a recursive-descent parser, and an evaluator over a
//! lexically scoped environment.
//!
//! The parser is proved to agree with the grammar in `grammar`, and the
//! interpreter with the semantics in `semantics`; `laws` states and proves
//! properties of the language over those two.
pub mod environment;
pub mod expr;
pub mod grammar;
pub mod interpreter;
pub mod laws;
pub mod lexical;
pub mod number;
pub mod parser;
pub mod printer;
pub mod scanner;
pub mod semantics;
pub mod stmt;
pub mod token;
pub mod value;
