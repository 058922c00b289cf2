//! Compiler front end for the xlang language: lexing, parsing, type checking,
//! diagnostics and C code generation.
use vstd::prelude::*;

pub mod ast;
pub mod checked_type;
pub mod cli;
pub mod codegen;
pub mod driver;
pub mod error;
pub mod grammar;
pub mod lexer;
pub mod lsp;
pub mod parser;
pub mod source;
pub mod symbols;
pub mod text;
pub mod type_rules;
pub mod typecheck;

verus! {

} // verus!
