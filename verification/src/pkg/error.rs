//! Errors of the package manager.

use vstd::prelude::*;
use crate::text::{string_of, push_str};

verus! {

#[verifier::external_type_specification]
#[verifier::external_body]
pub struct ExIoError(std::io::Error);

#[verifier::external_type_specification]
#[verifier::external_body]
pub struct ExJsonError(serde_json::Error);

/// Wraps `<std::io::Error as Display>::fmt`.  Nothing is stated of the
/// text, which comes from the operating system.
#[verifier::external_body]
fn io_error_text(e: &std::io::Error) -> String {
    format!("{}", e)
}

/// Wraps `<serde_json::Error as Display>::fmt`.  Nothing is stated of the
/// text.
#[verifier::external_body]
fn json_error_text(e: &serde_json::Error) -> String {
    format!("{}", e)
}

#[derive(Debug)]
pub enum PkgError {
    Manifest(String),
    NotFound { name: String },
    VersionConflict { name: String, required: String, found: String },
    Registry(String),
    Io(std::io::Error),
    Json(serde_json::Error),
    ChecksumMismatch { name: String, expected: String, actual: String },
}

impl PkgError {
    /// The error's message.  For `Io` and `Json` it ends with the
    /// underlying error's own text.
    pub fn message(&self) -> (m: String)
        ensures
            match self {
                PkgError::Manifest(s) => m@ == "manifest error: "@ + s@,
                PkgError::NotFound { name } => m@ == "dependency `"@ + name@ + "` not found in registry"@,
                PkgError::VersionConflict { name, required, found } => m@ == "version conflict: `"@ + name@
                    + "` requires "@ + required@ + " but "@ + found@ + " is locked"@,
                PkgError::Registry(s) => m@ == "registry error: "@ + s@,
                PkgError::Io(_) => "io error: "@.is_prefix_of(m@),
                PkgError::Json(_) => "json error: "@.is_prefix_of(m@),
                PkgError::ChecksumMismatch { name, expected, actual } => m@ == "checksum mismatch for `"@
                    + name@ + "`: expected "@ + expected@ + ", got "@ + actual@,
            },
    {
        match self {
            PkgError::Manifest(s) => {
                let mut m = string_of("manifest error: ");
                push_str(&mut m, s.as_str());
                m
            },
            PkgError::NotFound { name } => {
                let mut m = string_of("dependency `");
                push_str(&mut m, name.as_str());
                push_str(&mut m, "` not found in registry");
                m
            },
            PkgError::VersionConflict { name, required, found } => {
                let mut m = string_of("version conflict: `");
                push_str(&mut m, name.as_str());
                push_str(&mut m, "` requires ");
                push_str(&mut m, required.as_str());
                push_str(&mut m, " but ");
                push_str(&mut m, found.as_str());
                push_str(&mut m, " is locked");
                m
            },
            PkgError::Registry(s) => {
                let mut m = string_of("registry error: ");
                push_str(&mut m, s.as_str());
                m
            },
            PkgError::Io(e) => {
                let mut m = string_of("io error: ");
                let t = io_error_text(e);
                push_str(&mut m, t.as_str());
                assert("io error: "@ =~= m@.subrange(0, "io error: "@.len() as int));
                m
            },
            PkgError::Json(e) => {
                let mut m = string_of("json error: ");
                let t = json_error_text(e);
                push_str(&mut m, t.as_str());
                assert("json error: "@ =~= m@.subrange(0, "json error: "@.len() as int));
                m
            },
            PkgError::ChecksumMismatch { name, expected, actual } => {
                let mut m = string_of("checksum mismatch for `");
                push_str(&mut m, name.as_str());
                push_str(&mut m, "`: expected ");
                push_str(&mut m, expected.as_str());
                push_str(&mut m, ", got ");
                push_str(&mut m, actual.as_str());
                m
            },
        }
    }
}

} // verus!
