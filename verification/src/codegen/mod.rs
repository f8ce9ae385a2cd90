//! JavaScript back end: the emitter, its source maps and its errors.

pub mod error;
pub mod sourcemap;
pub mod js;

pub mod js_layout;
