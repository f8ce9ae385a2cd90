//! Bytecode: instruction set, module format, emitter, optimiser and binary
//! encoding.

pub mod opcode;
pub mod module;
pub mod encode;
pub mod opt;
pub mod emit;
