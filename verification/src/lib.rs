//! Front end of a compiler for a small C-like language: a scanner, a
//! recursive-descent parser and a type checker that annotates the syntax tree.
pub mod common;
pub mod grammar;
pub mod invariants;
pub mod messages;
pub mod parser;
pub mod rules;
pub mod scanner;
pub mod semantics;
pub mod soundness;
pub mod typechecker;
