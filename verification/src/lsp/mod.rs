//! Language-server logic: positions, hover, completion and diagnostics,
//! as plain values for the protocol layer to send.

pub mod position;
pub mod hover;
pub mod completion;
pub mod diagnostics;
pub mod server;
