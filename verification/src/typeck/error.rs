//! Type errors.

use vstd::prelude::*;
use crate::token::{Span, span_text, span_string};
use crate::text::{push_str, u64_to_string, nat_digits};

verus! {

#[derive(Debug, Clone)]
pub enum TypeError {
    TypeMismatch { expected: String, found: String, span: Span },
    UnresolvedName { name: String, span: Span },
    InfiniteType { span: Span },
    NoSuchField { field: String, ty: String, span: Span },
    NoSuchVariant { variant: String, ty: String, span: Span },
    ArgCountMismatch { name: String, expected: usize, found: usize, span: Span },
    ImmutableAssign { name: String, span: Span },
    NotCallable { name: String, span: Span },
    MissingReturn { name: String, span: Span },
    AwaitOutsideAsync { span: Span },
    NonExhaustiveMatch { span: Span },
    UseAfterMove { name: String, span: Span },
}

impl TypeError {
    /// The error's message.
    pub open spec fn message_spec(&self) -> Seq<char> {
        match self {
            TypeError::TypeMismatch { expected, found, span } => "type mismatch: expected `"@ + expected@ + "`, found `"@ + found@ + "` at "@ + span_text(*span),
            TypeError::UnresolvedName { name, span } => "unresolved name `"@ + name@ + "` at "@ + span_text(*span),
            TypeError::InfiniteType { span } => "infinite type detected (occurs check failed) at "@ + span_text(*span),
            TypeError::NoSuchField { field, ty, span } => "field `"@ + field@ + "` does not exist on type `"@ + ty@ + "` at "@ + span_text(*span),
            TypeError::NoSuchVariant { variant, ty, span } => "variant `"@ + variant@ + "` does not exist on enum `"@ + ty@ + "` at "@ + span_text(*span),
            TypeError::ArgCountMismatch { name, expected, found, span } => "function `"@ + name@ + "` expects "@ + nat_digits(*expected as nat) + " arguments but got "@ + nat_digits(*found as nat) + " at "@ + span_text(*span),
            TypeError::ImmutableAssign { name, span } => "cannot assign to immutable binding `"@ + name@ + "` at "@ + span_text(*span),
            TypeError::NotCallable { name, span } => "`"@ + name@ + "` is not a function at "@ + span_text(*span),
            TypeError::MissingReturn { name, span } => "missing return value in function `"@ + name@ + "` at "@ + span_text(*span),
            TypeError::AwaitOutsideAsync { span } => "cannot use `await` outside of an `async fn` at "@ + span_text(*span),
            TypeError::NonExhaustiveMatch { span } => "pattern is not exhaustive at "@ + span_text(*span),
            TypeError::UseAfterMove { name, span } => "use of moved value `"@ + name@ + "` at "@ + span_text(*span),
        }
    }

    pub fn message(&self) -> (m: String)
        ensures
            m@ == self.message_spec(),
    {
        let mut m = String::new();
        match self {
            TypeError::TypeMismatch { expected, found, span } => {
                push_str(&mut m, "type mismatch: expected `");
                push_str(&mut m, expected.as_str());
                push_str(&mut m, "`, found `");
                push_str(&mut m, found.as_str());
                push_str(&mut m, "` at ");
                push_str(&mut m, span_string(*span).as_str());
            },
            TypeError::UnresolvedName { name, span } => {
                push_str(&mut m, "unresolved name `");
                push_str(&mut m, name.as_str());
                push_str(&mut m, "` at ");
                push_str(&mut m, span_string(*span).as_str());
            },
            TypeError::InfiniteType { span } => {
                push_str(&mut m, "infinite type detected (occurs check failed) at ");
                push_str(&mut m, span_string(*span).as_str());
            },
            TypeError::NoSuchField { field, ty, span } => {
                push_str(&mut m, "field `");
                push_str(&mut m, field.as_str());
                push_str(&mut m, "` does not exist on type `");
                push_str(&mut m, ty.as_str());
                push_str(&mut m, "` at ");
                push_str(&mut m, span_string(*span).as_str());
            },
            TypeError::NoSuchVariant { variant, ty, span } => {
                push_str(&mut m, "variant `");
                push_str(&mut m, variant.as_str());
                push_str(&mut m, "` does not exist on enum `");
                push_str(&mut m, ty.as_str());
                push_str(&mut m, "` at ");
                push_str(&mut m, span_string(*span).as_str());
            },
            TypeError::ArgCountMismatch { name, expected, found, span } => {
                push_str(&mut m, "function `");
                push_str(&mut m, name.as_str());
                push_str(&mut m, "` expects ");
                push_str(&mut m, u64_to_string(*expected as u64).as_str());
                push_str(&mut m, " arguments but got ");
                push_str(&mut m, u64_to_string(*found as u64).as_str());
                push_str(&mut m, " at ");
                push_str(&mut m, span_string(*span).as_str());
            },
            TypeError::ImmutableAssign { name, span } => {
                push_str(&mut m, "cannot assign to immutable binding `");
                push_str(&mut m, name.as_str());
                push_str(&mut m, "` at ");
                push_str(&mut m, span_string(*span).as_str());
            },
            TypeError::NotCallable { name, span } => {
                push_str(&mut m, "`");
                push_str(&mut m, name.as_str());
                push_str(&mut m, "` is not a function at ");
                push_str(&mut m, span_string(*span).as_str());
            },
            TypeError::MissingReturn { name, span } => {
                push_str(&mut m, "missing return value in function `");
                push_str(&mut m, name.as_str());
                push_str(&mut m, "` at ");
                push_str(&mut m, span_string(*span).as_str());
            },
            TypeError::AwaitOutsideAsync { span } => {
                push_str(&mut m, "cannot use `await` outside of an `async fn` at ");
                push_str(&mut m, span_string(*span).as_str());
            },
            TypeError::NonExhaustiveMatch { span } => {
                push_str(&mut m, "pattern is not exhaustive at ");
                push_str(&mut m, span_string(*span).as_str());
            },
            TypeError::UseAfterMove { name, span } => {
                push_str(&mut m, "use of moved value `");
                push_str(&mut m, name.as_str());
                push_str(&mut m, "` at ");
                push_str(&mut m, span_string(*span).as_str());
            },
        }
        m
    }
}

} // verus!
