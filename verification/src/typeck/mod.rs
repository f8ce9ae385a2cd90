//! Type checking: semantic types, type errors, name resolution and the
//! ownership (borrow) check.

pub mod ty;
pub mod error;
pub mod borrow;
pub mod resolver;
