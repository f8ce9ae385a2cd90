//! Glue between the WASM and JS halves of a program: the bridge wrappers,
//! the loader and the targeting report, and the zero-copy typed-array path.

pub mod zerocopy;
pub mod codegen;
