//! Debug-adapter logic: protocol values and the adapter state machine.

pub mod protocol;
pub mod adapter;
