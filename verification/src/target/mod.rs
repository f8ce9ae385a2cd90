//! Compile-time WASM/JS targeting: scoring each function, then making the
//! decisions consistent along the call graph.

pub mod target;
pub mod infer;
pub mod propagate;
