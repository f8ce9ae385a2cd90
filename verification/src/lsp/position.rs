//! Editor positions (0-based line and character) and byte offsets.

use vstd::prelude::*;
use vstd::string::StringSliceAdditionalSpecFns;
use crate::token::Span;
use crate::lint::diag::{offset_to_line_col, line_col};
use crate::text::{chars_of, char_utf8_width, byte_offset, utf8_width, lemma_byte_offset_bounds, push_char};

verus! {

/// A position in a document: 0-based line and character.
#[derive(Debug, Clone, Copy, PartialEq, Eq, Structural)]
pub struct LspPosition {
    pub line: u32,
    pub character: u32,
}

/// A range in a document.
#[derive(Debug, Clone, Copy, PartialEq, Eq, Structural)]
pub struct LspRange {
    pub start: LspPosition,
    pub end: LspPosition,
}

/// The (line, character) position of character `k` of `s`: the newlines
/// before it, and the characters since the last of them.
pub open spec fn char_pos(s: Seq<char>, k: int) -> (int, int)
    decreases k,
{
    if k <= 0 {
        (0, 0)
    } else if s[k - 1] == '\n' {
        (char_pos(s, k - 1).0 + 1, 0)
    } else {
        (char_pos(s, k - 1).0, char_pos(s, k - 1).1 + 1)
    }
}

proof fn lemma_char_pos_bound(s: Seq<char>, k: int)
    requires
        0 <= k,
    ensures
        0 <= char_pos(s, k).0 <= k,
        0 <= char_pos(s, k).1 <= k,
    decreases k,
{
    if k > 0 {
        lemma_char_pos_bound(s, k - 1);
    }
}

/// The byte offset of the character at `pos`, if a character is there.
pub fn position_to_offset(src: &str, pos: LspPosition) -> (r: Option<usize>)
    requires
        4 * src@.len() < u32::MAX,
    ensures
        match r {
            Some(b) => exists|k: int|
                0 <= k < src@.len() && char_pos(src@, k) == (pos.line as int, pos.character as int) && b
                    == byte_offset(src@, k) && forall|j: int| 0 <= j < k ==> char_pos(src@, j) != (pos.line as int, pos.character as int),
            None => forall|k: int| 0 <= k < src@.len() ==> char_pos(src@, k) != (pos.line as int, pos.character as int),
        },
{
    let cs = chars_of(src);
    let mut line: u32 = 0;
    let mut col: u32 = 0;
    let mut byte: usize = 0;
    let mut k: usize = 0;
    while k < cs.len()
        invariant
            cs@ == src@,
            4 * src@.len() < u32::MAX,
            k <= cs@.len(),
            (line as int, col as int) == char_pos(src@, k as int),
            byte == byte_offset(src@, k as int),
            forall|j: int| 0 <= j < k ==> char_pos(src@, j) != (pos.line as int, pos.character as int),
        decreases cs.len() - k,
    {
        if line == pos.line && col == pos.character {
            return Some(byte);
        }
        proof {
            lemma_char_pos_bound(src@, k as int);
            lemma_byte_offset_bounds(src@, k as int + 1);
        }
        let c = cs[k];
        if c == '\n' {
            line = line + 1;
            col = 0;
        } else {
            col = col + 1;
        }
        byte = byte + char_utf8_width(c);
        k = k + 1;
    }
    None
}

/// The 0-based line and byte column of byte `off` (clamped to the end of
/// `b`); an offset inside a character is reported at (0, 0).
pub open spec fn lsp_pos(b: Seq<u8>, off: int) -> (int, int) {
    let k = if off < b.len() { off } else { b.len() as int };
    if b.len() < usize::MAX && vstd::utf8::is_char_boundary(b, k) {
        (line_col(b, k).0 - 1, line_col(b, k).1 - 1)
    } else {
        (0, 0)
    }
}

/// `r` is the range of `span` in `b`.
pub open spec fn range_is(b: Seq<u8>, span: Span, r: LspRange) -> bool {
    &&& r.start.line as int == lsp_pos(b, span.start as int).0
    &&& r.start.character as int == lsp_pos(b, span.start as int).1
    &&& r.end.line as int == lsp_pos(b, span.end as int).0
    &&& r.end.character as int == lsp_pos(b, span.end as int).1
}

/// The 0-based line and byte column of an offset; an offset inside a
/// character is reported at (0, 0).
pub fn lsp_line_col(src: &str, offset: usize) -> (r: (usize, usize))
    ensures
        (r.0 as int, r.1 as int) == lsp_pos(src.spec_bytes(), offset as int),
        r.0 <= src.spec_bytes().len(),
        r.1 <= src.spec_bytes().len(),
{
    let len = src.as_bytes().len();
    let k = if offset < len { offset } else { len };
    if len < usize::MAX && src.is_char_boundary(k) {
        let (l, c) = offset_to_line_col(src, offset);
        (l - 1, c - 1)
    } else {
        (0, 0)
    }
}

/// The range a span covers, as editor positions.
pub fn span_to_range(src: &str, span: Span) -> (r: LspRange)
    ensures
        src.spec_bytes().len() <= u32::MAX ==> range_is(src.spec_bytes(), span, r),
{
    let (sl, sc) = lsp_line_col(src, span.start);
    let (el, ec) = lsp_line_col(src, span.end);
    LspRange {
        start: LspPosition { line: #[verifier::truncate] (sl as u32), character: #[verifier::truncate] (sc as u32) },
        end: LspPosition { line: #[verifier::truncate] (el as u32), character: #[verifier::truncate] (ec as u32) },
    }
}

/// An identifier byte: ASCII alphanumeric or `_`.
pub open spec fn ident_byte(b: u8) -> bool {
    (48 <= b <= 57) || (65 <= b <= 90) || (97 <= b <= 122) || b == 95
}

fn is_ident_byte(b: u8) -> (r: bool)
    ensures
        r == ident_byte(b),
{
    (48 <= b && b <= 57) || (65 <= b && b <= 90) || (97 <= b && b <= 122) || b == 95
}

/// `s[a..b]` is a maximal run of identifier bytes.
pub open spec fn word_run(s: Seq<u8>, a: int, b: int) -> bool {
    0 <= a < b <= s.len() && (forall|i: int| a <= i < b ==> ident_byte(#[trigger] s[i])) && (a == 0 || !ident_byte(
        s[a - 1],
    )) && (b == s.len() || !ident_byte(s[b]))
}

/// The bytes of `s[a..b]`, each read as a character.
pub open spec fn ascii_chars(s: Seq<u8>, a: int, b: int) -> Seq<char> {
    Seq::new((b - a) as nat, |i: int| s[a + i] as char)
}

/// The identifier under byte `offset`: the run of identifier bytes around
/// it, if the byte there is one.
pub fn word_at(src: &str, offset: usize) -> (r: Option<String>)
    ensures
        match r {
            Some(w) => exists|a: int, b: int|
                #[trigger] word_run(src.spec_bytes(), a, b) && a <= offset < b && w@ == ascii_chars(
                    src.spec_bytes(),
                    a,
                    b,
                ),
            None => offset >= src.spec_bytes().len() || !ident_byte(src.spec_bytes()[offset as int]),
        },
{
    let bytes = src.as_bytes();
    if offset >= bytes.len() || !is_ident_byte(bytes[offset]) {
        return None;
    }
    let mut start = offset;
    while start > 0 && is_ident_byte(bytes[start - 1])
        invariant
            start <= offset < bytes@.len(),
            forall|i: int| start <= i <= offset ==> ident_byte(#[trigger] bytes@[i]),
        decreases start,
    {
        start = start - 1;
    }
    let mut end = offset + 1;
    while end < bytes.len() && is_ident_byte(bytes[end])
        invariant
            offset < end <= bytes@.len(),
            forall|i: int| offset <= i < end ==> ident_byte(#[trigger] bytes@[i]),
        decreases bytes.len() - end,
    {
        end = end + 1;
    }
    let mut w = String::new();
    let mut i = start;
    while i < end
        invariant
            start <= i <= end <= bytes@.len(),
            w@.len() == i - start,
            forall|j: int| start <= j < i ==> w@[j - start] == (bytes@[j] as char),
        decreases end - i,
    {
        push_char(&mut w, bytes[i] as char);
        i = i + 1;
    }
    assert(w@ =~= ascii_chars(bytes@, start as int, end as int));
    assert(word_run(bytes@, start as int, end as int));
    Some(w)
}

} // verus!
