//! Static analysis of Selvr source: the lint rules and their driver.

pub mod diag;
pub mod dead_code;
pub mod missing_return;
pub mod unused_var;
pub mod shadow_variable;
pub mod target_hint;
pub mod linter;
