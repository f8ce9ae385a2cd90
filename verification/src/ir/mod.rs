//! The mid-level intermediate representation: a control-flow graph of basic
//! blocks of three-address instructions, and the lowering from the AST.

pub mod ir;
pub mod lower;
