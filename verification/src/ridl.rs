//! The RIDL interface definition language: its lexer, grammar, syntax tree
//! and code generator.

pub mod lexer;
pub mod ast;
pub mod grammar;
pub mod parser;
pub mod text;
pub mod generator;
