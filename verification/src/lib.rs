//! Selvr toolchain core: lexer, parser, formatter, IR lowering, bytecode,
//! JavaScript emission, linting, targeting and package bookkeeping.

pub mod text;
pub mod token;
pub mod lexer;
pub mod ast;
pub mod parser;
pub mod bytecode;
pub mod ir;
pub mod codegen;
pub mod target;
pub mod bridge;
pub mod pkg;
pub mod fmt;
pub mod typeck;
pub mod lint;
pub mod lsp;
pub mod dap;
pub mod cli;
