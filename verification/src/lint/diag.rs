//! Diagnostics, and the byte-offset → line/column mapping they use.

use vstd::prelude::*;
use vstd::utf8::is_char_boundary;
use vstd::string::StringSliceAdditionalSpecFns;
use crate::token::Span;
use crate::text::{string_of, push_str, u64_to_string, nat_digits};

verus! {

#[derive(Debug, Clone, Copy, PartialEq, Eq, Structural)]
pub enum Severity {
    Error,
    Warning,
    Info,
    Hint,
}

impl Severity {
    pub open spec fn text_spec(self) -> Seq<char> {
        match self {
            Severity::Error => "error"@,
            Severity::Warning => "warning"@,
            Severity::Info => "info"@,
            Severity::Hint => "hint"@,
        }
    }

    /// The severity's name, as diagnostics print it.
    pub fn text(&self) -> (s: &'static str)
        ensures
            s@ == self.text_spec(),
    {
        match self {
            Severity::Error => "error",
            Severity::Warning => "warning",
            Severity::Info => "info",
            Severity::Hint => "hint",
        }
    }
}

#[derive(Debug, Clone, Copy, PartialEq, Eq, Structural)]
pub struct LintSpan {
    /// 0-based byte offset in the source.
    pub start: u32,
    pub end: u32,
    /// 1-based, for display.
    pub line: u32,
    pub col: u32,
}

#[derive(Debug, Clone)]
pub struct LintDiagnostic {
    /// Rule code, e.g. "SL001".
    pub code: &'static str,
    pub name: &'static str,
    pub severity: Severity,
    pub message: String,
    pub span: LintSpan,
    /// A fix suggestion for IDE quick-fixes.
    pub fix: Option<String>,
}

impl LintDiagnostic {
    pub open spec fn render_spec(&self) -> Seq<char> {
        self.severity.text_spec() + "["@ + self.code@ + "] at "@ + nat_digits(self.span.line as nat) + ":"@
            + nat_digits(self.span.col as nat) + " \u{2014} "@ + self.message@
    }

    /// `severity[code] at line:col — message`.
    pub fn render(&self) -> (s: String)
        ensures
            s@ == self.render_spec(),
    {
        let mut s = string_of(self.severity.text());
        push_str(&mut s, "[");
        push_str(&mut s, self.code);
        push_str(&mut s, "] at ");
        push_str(&mut s, u64_to_string(self.span.line as u64).as_str());
        push_str(&mut s, ":");
        push_str(&mut s, u64_to_string(self.span.col as u64).as_str());
        push_str(&mut s, " \u{2014} ");
        push_str(&mut s, self.message.as_str());
        s
    }
}

/// How many newline bytes `b` holds.
pub open spec fn newlines(b: Seq<u8>) -> nat
    decreases b.len(),
{
    if b.len() == 0 {
        0
    } else {
        newlines(b.drop_last()) + if b.last() == 10u8 { 1nat } else { 0nat }
    }
}

/// The position of the last newline byte in `b`.
pub open spec fn last_newline(b: Seq<u8>) -> Option<int>
    decreases b.len(),
{
    if b.len() == 0 {
        None
    } else if b.last() == 10u8 {
        Some(b.len() - 1)
    } else {
        last_newline(b.drop_last())
    }
}

/// The 1-based line and column (in bytes) of byte offset `k` in `b`.
pub open spec fn line_col(b: Seq<u8>, k: int) -> (int, int) {
    let pre = b.subrange(0, k);
    (
        newlines(pre) as int + 1,
        match last_newline(pre) {
            Some(p) => k - p - 1,
            None => k,
        } + 1,
    )
}

proof fn lemma_newlines_bound(b: Seq<u8>)
    ensures
        newlines(b) <= b.len(),
    decreases b.len(),
{
    if b.len() > 0 {
        lemma_newlines_bound(b.drop_last());
    }
}

proof fn lemma_last_newline_bound(b: Seq<u8>)
    ensures
        last_newline(b) matches Some(p) ==> 0 <= p < b.len(),
    decreases b.len(),
{
    if b.len() > 0 {
        lemma_last_newline_bound(b.drop_last());
    }
}

/// The line and column of a byte offset (clamped to the source's end).
/// The offset must fall on a character boundary.
pub fn offset_to_line_col(src: &str, offset: usize) -> (r: (usize, usize))
    requires
        src.spec_bytes().len() < usize::MAX,
        is_char_boundary(src.spec_bytes(), if offset < src.spec_bytes().len() { offset as int } else { src.spec_bytes().len() as int }),
    ensures
        (r.0 as int, r.1 as int) == line_col(src.spec_bytes(), if offset < src.spec_bytes().len() { offset as int } else { src.spec_bytes().len() as int }),
        1 <= r.0 <= src.spec_bytes().len() + 1,
        1 <= r.1 <= src.spec_bytes().len() + 1,
{
    let bytes = src.as_bytes();
    let k = if offset < bytes.len() { offset } else { bytes.len() };
    let ghost b = bytes@;
    let mut lines: usize = 0;
    let mut last: Option<usize> = None;
    let mut i: usize = 0;
    while i < k
        invariant
            b == bytes@,
            k <= b.len(),
            i <= k,
            lines == newlines(b.subrange(0, i as int)),
            match last {
                Some(p) => last_newline(b.subrange(0, i as int)) == Some(p as int),
                None => last_newline(b.subrange(0, i as int)) is None,
            },
        decreases k - i,
    {
        proof {
            assert(b.subrange(0, i + 1).drop_last() =~= b.subrange(0, i as int));
            lemma_newlines_bound(b.subrange(0, i as int));
        }
        if bytes[i] == 10u8 {
            lines = lines + 1;
            last = Some(i);
        }
        i = i + 1;
    }
    proof {
        lemma_newlines_bound(b.subrange(0, k as int));
        lemma_last_newline_bound(b.subrange(0, k as int));
    }
    let col = match last {
        Some(p) => k - p - 1,
        None => k,
    };
    (lines + 1, col + 1)
}

/// A span's lint span: its byte range and the line and column of its
/// start.  An offset inside a character is reported at line 1, column 1.
pub fn to_lint_span(src: &str, span: Span) -> (l: LintSpan)
    ensures
        l.start == span.start as u32,
        l.end == span.end as u32,
        ({
            let b = src.spec_bytes();
            let k = if span.start < b.len() { span.start as int } else { b.len() as int };
            if b.len() < usize::MAX && is_char_boundary(b, k) {
                line_col(b, k).0 <= u32::MAX && line_col(b, k).1 <= u32::MAX ==> l.line == line_col(b, k).0
                    && l.col == line_col(b, k).1
            } else {
                l.line == 1 && l.col == 1
            }
        }),
{
    let start = span.start;
    let len = src.as_bytes().len();
    let k = if start < len { start } else { len };
    let (line, col) = if len < usize::MAX && src.is_char_boundary(k) {
        offset_to_line_col(src, start)
    } else {
        (1, 1)
    };
    LintSpan {
        start: #[verifier::truncate] (span.start as u32),
        end: #[verifier::truncate] (span.end as u32),
        line: #[verifier::truncate] (line as u32),
        col: #[verifier::truncate] (col as u32),
    }
}

} // verus!
