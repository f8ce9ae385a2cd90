//! Lint diagnostics as editor diagnostics.

use vstd::prelude::*;
use crate::lexer::lex_tokens;
use crate::lint::diag::{LintDiagnostic, Severity};
use crate::lint::linter::{Linter, LintConfig};
use crate::text::string_of;
use crate::lsp::position::{LspPosition, LspRange};

verus! {

/// How serious an editor diagnostic is.
#[derive(Debug, Clone, Copy, PartialEq, Eq, Structural)]
pub enum DiagnosticLevel {
    Error,
    Warning,
    Information,
    Hint,
}

/// An editor diagnostic.
#[derive(Debug, Clone)]
pub struct LspDiagnostic {
    pub range: LspRange,
    pub severity: DiagnosticLevel,
    pub code: String,
    pub source: String,
    pub message: String,
}

pub open spec fn level_of(s: Severity) -> DiagnosticLevel {
    match s {
        Severity::Error => DiagnosticLevel::Error,
        Severity::Warning => DiagnosticLevel::Warning,
        Severity::Info => DiagnosticLevel::Information,
        Severity::Hint => DiagnosticLevel::Hint,
    }
}

/// `a - 1`, or 0 for 0.
pub open spec fn dec_sat(a: u32) -> int {
    if a == 0 { 0 } else { a - 1 }
}

/// The editor diagnostic for a lint diagnostic: 0-based line and column
/// on one line, spanning the diagnostic's bytes (at least one, and never
/// past `u32::MAX`), from source `selvr`.
pub open spec fn converted(d: LintDiagnostic, r: LspDiagnostic) -> bool {
    let col = dec_sat(d.span.col);
    let width = if d.span.end > d.span.start { d.span.end - d.span.start } else { 1 };
    &&& r.range.start.line == dec_sat(d.span.line)
    &&& r.range.end.line == dec_sat(d.span.line)
    &&& r.range.start.character == col
    &&& r.range.end.character == if col + width <= u32::MAX { col + width } else { u32::MAX as int }
    &&& r.severity == level_of(d.severity)
    &&& r.code@ == d.code@
    &&& r.source@ == "selvr"@
    &&& r.message@ == d.message@
}

/// The editor form of one lint diagnostic.
pub fn to_lsp_diagnostic(d: &LintDiagnostic) -> (r: LspDiagnostic)
    ensures
        converted(*d, r),
{
    let line = if d.span.line > 0 { d.span.line - 1 } else { 0 };
    let col = if d.span.col > 0 { d.span.col - 1 } else { 0 };
    let width = if d.span.end > d.span.start { d.span.end - d.span.start } else { 1 };
    let end = if col <= u32::MAX - width { col + width } else { u32::MAX };
    let severity = match d.severity {
        Severity::Error => DiagnosticLevel::Error,
        Severity::Warning => DiagnosticLevel::Warning,
        Severity::Info => DiagnosticLevel::Information,
        Severity::Hint => DiagnosticLevel::Hint,
    };
    LspDiagnostic {
        range: LspRange { start: LspPosition { line, character: col }, end: LspPosition { line, character: end } },
        severity,
        code: string_of(d.code),
        source: string_of("selvr"),
        message: d.message.clone(),
    }
}

/// Each lint diagnostic in its editor form, in order.
pub fn to_lsp_diagnostics(diags: &Vec<LintDiagnostic>) -> (r: Vec<LspDiagnostic>)
    ensures
        r@.len() == diags@.len(),
        forall|i: int| 0 <= i < r@.len() ==> converted(diags@[i], #[trigger] r@[i]),
{
    let mut r: Vec<LspDiagnostic> = Vec::new();
    let mut i: usize = 0;
    while i < diags.len()
        invariant
            i <= diags@.len(),
            r@.len() == i,
            forall|k: int| 0 <= k < i ==> converted(diags@[k], #[trigger] r@[k]),
        decreases diags.len() - i,
    {
        r.push(to_lsp_diagnostic(&diags[i]));
        i = i + 1;
    }
    r
}

/// The default lints of `src`, as editor diagnostics.  Where `src` does not
/// lex, each lexical error comes as one error diagnostic `SL000` at the
/// start of the file.
pub fn lint_diagnostics(src: &str) -> (r: Vec<LspDiagnostic>)
    requires
        4 * src@.len() < usize::MAX,
    ensures
        lex_tokens(src@, 0).1.len() > 0 ==> r@.len() == lex_tokens(src@, 0).1.len() && forall|i: int|
            0 <= i < r@.len() ==> (#[trigger] r@[i]).code@ == "SL000"@ && r@[i].source@ == "selvr"@,
{
    let linter = Linter::new(LintConfig::default());
    let diags = linter.check_src(src);
    to_lsp_diagnostics(&diags)
}

} // verus!
