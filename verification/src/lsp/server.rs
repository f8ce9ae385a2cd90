//! Answers to the editor's document requests: formatting, go-to-definition
//! and the outline, as plain values for the protocol layer to send.

use vstd::prelude::*;
use vstd::string::StringSliceAdditionalSpecFns;
use crate::ast::{Module, Item};
use crate::token::Span;
use crate::lexer::{Lexer, lex_tokens};
use crate::parser::Parser;
use crate::fmt::formatter::Formatter;
use crate::lint::diag::{newlines, last_newline};
use crate::text::str_eq;
use crate::lsp::position::{LspPosition, LspRange, position_to_offset, word_at, span_to_range, range_is};

verus! {

/// A replacement of the text in `range` by `new_text`.
#[derive(Debug, Clone)]
pub struct DocumentEdit {
    pub range: LspRange,
    pub new_text: String,
}

/// What an outline entry is.
#[derive(Debug, Clone, Copy, PartialEq, Eq, Structural)]
pub enum SymbolCategory {
    Function,
    Struct,
    Enum,
    Interface,
    Constant,
}

/// An outline entry: a top-level item's name, what it is, and where.
#[derive(Debug, Clone)]
pub struct DocumentSymbolInfo {
    pub name: String,
    pub kind: SymbolCategory,
    pub range: LspRange,
    pub selection_range: LspRange,
}

/// How many lines `b` has: a final line ending starts no new line.
pub open spec fn line_count(b: Seq<u8>) -> int {
    newlines(b) + if b.len() > 0 && b.last() != 10u8 { 1int } else { 0int }
}

/// The byte length of the last line of `b`, without its line ending (a
/// carriage return counts as part of it only where no newline follows).
pub open spec fn last_line_len(b: Seq<u8>) -> int {
    if b.len() == 0 {
        0
    } else {
        let t = if b.last() == 10u8 { b.drop_last() } else { b };
        let start = match last_newline(t) {
            Some(p) => p + 1,
            None => 0,
        };
        let n = t.len() - start;
        if b.last() == 10u8 && n > 0 && t.last() == 13u8 {
            n - 1
        } else {
            n
        }
    }
}

proof fn lemma_newlines_le(b: Seq<u8>)
    ensures
        newlines(b) <= b.len(),
    decreases b.len(),
{
    if b.len() > 0 {
        lemma_newlines_le(b.drop_last());
    }
}

proof fn lemma_last_newline_in(b: Seq<u8>)
    ensures
        last_newline(b) matches Some(p) ==> 0 <= p < b.len() && b[p] == 10u8,
    decreases b.len(),
{
    if b.len() > 0 {
        lemma_last_newline_in(b.drop_last());
    }
}

/// (line count, last line's length) of `src`.
fn line_metrics(src: &str) -> (r: (usize, usize))
    ensures
        r.0 as int == line_count(src.spec_bytes()),
        r.1 as int == last_line_len(src.spec_bytes()),
{
    let bytes = src.as_bytes();
    let ghost b = bytes@;
    let mut lines: usize = 0;
    let mut last: Option<usize> = None;
    let mut i: usize = 0;
    let n = bytes.len();
    let t_len = if n > 0 && bytes[n - 1] == 10u8 { n - 1 } else { n };
    let mut t_last: Option<usize> = None;
    while i < n
        invariant
            b == bytes@,
            n == b.len(),
            i <= n,
            t_len <= n,
            lines as int == newlines(b.subrange(0, i as int)),
            lines <= i,
            match last {
                Some(p) => last_newline(b.subrange(0, i as int)) == Some(p as int),
                None => last_newline(b.subrange(0, i as int)) is None,
            },
            i <= t_len ==> match t_last {
                Some(p) => last_newline(b.subrange(0, i as int)) == Some(p as int),
                None => last_newline(b.subrange(0, i as int)) is None,
            },
            i > t_len ==> match t_last {
                Some(p) => last_newline(b.subrange(0, t_len as int)) == Some(p as int),
                None => last_newline(b.subrange(0, t_len as int)) is None,
            },
        decreases n - i,
    {
        proof {
            assert(b.subrange(0, i + 1).drop_last() =~= b.subrange(0, i as int));
        }
        if bytes[i] == 10u8 {
            lines = lines + 1;
            last = Some(i);
            if i < t_len {
                t_last = Some(i);
            }
        } else if i < t_len {
            t_last = last;
        }
        i = i + 1;
    }
    assert(b.subrange(0, n as int) =~= b);
    proof {
        if n > 0 {
            lemma_newlines_le(b.drop_last());
        }
    }
    let count = if n > 0 && bytes[n - 1] != 10u8 { lines + 1 } else { lines };
    if n == 0 {
        return (count, 0);
    }
    proof {
        if t_len < n {
            assert(b.drop_last() =~= b.subrange(0, t_len as int));
        }
        lemma_last_newline_in(b.subrange(0, t_len as int));
    }
    let start = match t_last {
        Some(p) => p + 1,
        None => 0,
    };
    let len = t_len - start;
    let len = if t_len < n && len > 0 && bytes[t_len - 1] == 13u8 { len - 1 } else { len };
    (count, len)
}

/// The edit that replaces the whole of `src` by `formatted`: none where
/// the two are equal.  The range ends at the last line's end.
pub fn replace_all_edit(src: &str, formatted: String) -> (r: Vec<DocumentEdit>)
    ensures
        src@ == formatted@ ==> r@.len() == 0,
        src@ != formatted@ ==> ({
            let b = src.spec_bytes();
            let end_line = if line_count(b) > 0 { line_count(b) - 1 } else { 0 };
            &&& r@.len() == 1
            &&& r@[0].new_text@ == formatted@
            &&& r@[0].range.start == (LspPosition { line: 0, character: 0 })
            &&& (end_line <= u32::MAX ==> r@[0].range.end.line == end_line)
            &&& (last_line_len(b) <= u32::MAX ==> r@[0].range.end.character == last_line_len(b))
        }),
{
    if str_eq(formatted.as_str(), src) {
        return Vec::new();
    }
    let (count, last_len) = line_metrics(src);
    let end_line = if count > 0 { count - 1 } else { 0 };
    let mut r: Vec<DocumentEdit> = Vec::new();
    r.push(DocumentEdit {
        range: LspRange {
            start: LspPosition { line: 0, character: 0 },
            end: LspPosition {
                line: #[verifier::truncate] (end_line as u32),
                character: #[verifier::truncate] (last_len as u32),
            },
        },
        new_text: formatted,
    });
    r
}

/// The edit that formats `src`, if it formats to something else; none
/// where it does not lex or parse.
pub fn format_document(src: &str) -> (r: Vec<DocumentEdit>)
    requires
        4 * src@.len() < usize::MAX,
    ensures
        r@.len() <= 1,
        lex_tokens(src@, 0).1.len() > 0 ==> r@.len() == 0,
        r@.len() == 1 ==> r@[0].new_text@ != src@ && r@[0].range.start == (LspPosition { line: 0, character: 0 }),
{
    let fmt = Formatter::new();
    match fmt.format_src(src) {
        Ok(formatted) => replace_all_edit(src, formatted),
        Err(_) => Vec::new(),
    }
}

/// The name and span of a function, struct, enum or trait.
pub open spec fn definition_of(it: Item) -> Option<(Seq<char>, Span)> {
    match it {
        Item::FnDef(f) => Some((f.name@, f.span)),
        Item::StructDef(s) => Some((s.name@, s.span)),
        Item::EnumDef(e) => Some((e.name@, e.span)),
        Item::TraitDef(t) => Some((t.name@, t.span)),
        _ => None,
    }
}

/// The span of the first function, struct, enum or trait named `word`.
pub open spec fn definition_span(items: Seq<Item>, word: Seq<char>) -> Option<Span>
    decreases items.len(),
{
    if items.len() == 0 {
        None
    } else {
        match definition_of(items[0]) {
            Some(d) => if d.0 == word {
                Some(d.1)
            } else {
                definition_span(items.drop_first(), word)
            },
            None => definition_span(items.drop_first(), word),
        }
    }
}

/// Where `word` is defined among the top-level items of `module`.
pub fn find_definition_in(src: &str, module: &Module, word: &str) -> (r: Option<LspRange>)
    ensures
        match definition_span(module.items@, word@) {
            Some(sp) => r is Some && (src.spec_bytes().len() <= u32::MAX ==> range_is(src.spec_bytes(), sp, r->0)),
            None => r is None,
        },
{
    let mut i: usize = 0;
    assert(module.items@.subrange(0, module.items@.len() as int) =~= module.items@);
    while i < module.items.len()
        invariant
            i <= module.items@.len(),
            definition_span(module.items@, word@) == definition_span(
                module.items@.subrange(i as int, module.items@.len() as int),
                word@,
            ),
        decreases module.items.len() - i,
    {
        let ghost rest = module.items@.subrange(i as int, module.items@.len() as int);
        assert(rest[0] == module.items@[i as int]);
        assert(rest.drop_first() =~= module.items@.subrange(i + 1, module.items@.len() as int));
        let found = match &module.items[i] {
            Item::FnDef(f) => if str_eq(f.name.as_str(), word) { Some(f.span) } else { None },
            Item::StructDef(s) => if str_eq(s.name.as_str(), word) { Some(s.span) } else { None },
            Item::EnumDef(e) => if str_eq(e.name.as_str(), word) { Some(e.span) } else { None },
            Item::TraitDef(t) => if str_eq(t.name.as_str(), word) { Some(t.span) } else { None },
            _ => None,
        };
        match found {
            Some(sp) => {
                return Some(span_to_range(src, sp));
            },
            None => {},
        }
        i = i + 1;
    }
    None
}

/// Go-to-definition at `pos`: the word there, looked up among the
/// top-level items of the module `src` parses to.
pub fn find_definition(src: &str, pos: LspPosition) -> (r: Option<LspRange>)
    requires
        4 * src@.len() < u32::MAX,
    ensures
        r is Some ==> exists|k: int|
            0 <= k < src@.len() && crate::lsp::position::char_pos(src@, k) == (pos.line as int, pos.character as int),
{
    let (tokens, _) = Lexer::new(src, 0).tokenize();
    let (module, _) = Parser::new(tokens, 0).parse();
    let offset = match position_to_offset(src, pos) {
        Some(o) => o,
        None => return None,
    };
    let word = match word_at(src, offset) {
        Some(w) => w,
        None => return None,
    };
    find_definition_in(src, &module, word.as_str())
}

/// The outline entry a top-level item gives, if any: name, kind, span.
pub open spec fn symbol_of(it: Item) -> Option<(Seq<char>, SymbolCategory, Span)> {
    match it {
        Item::FnDef(f) => Some((f.name@, SymbolCategory::Function, f.span)),
        Item::StructDef(s) => Some((s.name@, SymbolCategory::Struct, s.span)),
        Item::EnumDef(e) => Some((e.name@, SymbolCategory::Enum, e.span)),
        Item::TraitDef(t) => Some((t.name@, SymbolCategory::Interface, t.span)),
        Item::Const(c) => Some((c.name@, SymbolCategory::Constant, c.span)),
        _ => None,
    }
}

/// The outline entries the items give, in order.
pub open spec fn symbols_of(items: Seq<Item>) -> Seq<(Seq<char>, SymbolCategory, Span)>
    decreases items.len(),
{
    if items.len() == 0 {
        seq![]
    } else {
        symbols_of(items.drop_last()) + match symbol_of(items.last()) {
            Some(e) => seq![e],
            None => seq![],
        }
    }
}

/// `r` is the outline entry `e` in `b`.
pub open spec fn symbol_is(b: Seq<u8>, e: (Seq<char>, SymbolCategory, Span), r: DocumentSymbolInfo) -> bool {
    &&& r.name@ == e.0
    &&& r.kind == e.1
    &&& r.range == r.selection_range
    &&& (b.len() <= u32::MAX ==> range_is(b, e.2, r.range))
}

/// The outline of `module`: one entry per function, struct, enum, trait
/// and constant, in order.
pub fn module_symbols(src: &str, module: &Module) -> (r: Vec<DocumentSymbolInfo>)
    ensures
        r@.len() == symbols_of(module.items@).len(),
        forall|i: int| 0 <= i < r@.len() ==> symbol_is(src.spec_bytes(), symbols_of(module.items@)[i], #[trigger] r@[i]),
{
    let mut r: Vec<DocumentSymbolInfo> = Vec::new();
    let mut i: usize = 0;
    while i < module.items.len()
        invariant
            i <= module.items@.len(),
            r@.len() == symbols_of(module.items@.subrange(0, i as int)).len(),
            forall|k: int| 0 <= k < r@.len() ==> symbol_is(src.spec_bytes(), symbols_of(module.items@.subrange(0, i as int))[k], #[trigger] r@[k]),
        decreases module.items.len() - i,
    {
        let ghost before = r@;
        let found = match &module.items[i] {
            Item::FnDef(f) => Some((f.name.clone(), SymbolCategory::Function, f.span)),
            Item::StructDef(s) => Some((s.name.clone(), SymbolCategory::Struct, s.span)),
            Item::EnumDef(e) => Some((e.name.clone(), SymbolCategory::Enum, e.span)),
            Item::TraitDef(t) => Some((t.name.clone(), SymbolCategory::Interface, t.span)),
            Item::Const(c) => Some((c.name.clone(), SymbolCategory::Constant, c.span)),
            _ => None,
        };
        match found {
            Some((name, kind, span)) => {
                let range = span_to_range(src, span);
                r.push(DocumentSymbolInfo { name, kind, range, selection_range: range });
            },
            None => {},
        }
        proof {
            let sub = module.items@.subrange(0, i + 1);
            assert(sub.drop_last() =~= module.items@.subrange(0, i as int));
            assert(sub.last() == module.items@[i as int]);
            let prev = symbols_of(sub.drop_last());
            assert forall|k: int| 0 <= k < r@.len() implies symbol_is(src.spec_bytes(), symbols_of(sub)[k], #[trigger] r@[k]) by {
                if k < before.len() {
                    assert(r@[k] == before[k]);
                    assert(symbols_of(sub)[k] == prev[k]);
                }
            }
        }
        i = i + 1;
    }
    assert(module.items@.subrange(0, i as int) =~= module.items@);
    r
}

/// The outline of the module `src` parses to (see [`module_symbols`]).
pub fn document_symbols(src: &str) -> (r: Vec<DocumentSymbolInfo>)
    requires
        4 * src@.len() < usize::MAX,
    ensures
        forall|i: int| 0 <= i < r@.len() ==> (#[trigger] r@[i]).range == r@[i].selection_range,
{
    let (tokens, _) = Lexer::new(src, 0).tokenize();
    let (module, _) = Parser::new(tokens, 0).parse();
    module_symbols(src, &module)
}

} // verus!
