//! The canonical source formatter.

pub mod layout;
pub mod printer;
pub mod formatter;
