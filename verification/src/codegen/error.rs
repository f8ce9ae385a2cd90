//! Errors of the JavaScript back end.

use vstd::prelude::*;
use crate::text::{string_of, push_str};

verus! {

#[derive(Debug, Clone, PartialEq)]
pub enum CodegenError {
    /// A node without a type reached code generation.
    UntypedNode,
    /// A feature the JS back end does not handle.
    Unsupported(String),
}

impl CodegenError {
    pub open spec fn message_spec(&self) -> Seq<char> {
        match self {
            CodegenError::UntypedNode => "code generation encountered an untyped node (type checker must run first)"@,
            CodegenError::Unsupported(what) => "unsupported feature in JS backend: "@ + what@,
        }
    }

    /// The error's message.
    pub fn message(&self) -> (m: String)
        ensures
            m@ == self.message_spec(),
    {
        match self {
            CodegenError::UntypedNode => string_of(
                "code generation encountered an untyped node (type checker must run first)",
            ),
            CodegenError::Unsupported(what) => {
                let mut m = string_of("unsupported feature in JS backend: ");
                push_str(&mut m, what.as_str());
                m
            },
        }
    }
}

} // verus!
