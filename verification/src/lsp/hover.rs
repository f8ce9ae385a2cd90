//! Hover text: an item's signature and targeting decision, or a keyword's
//! meaning.

use vstd::prelude::*;
use vstd::string::StringSliceAdditionalSpecFns;
use crate::ast::{Module, Item, Type, FnDef, Param, StructDef, StructField};
use crate::lexer::Lexer;
use crate::parser::Parser;
use crate::ir::ir::{Target, IrFn};
use crate::ir::lower::{lower_module, module_lowerable, item_lowerable};
use crate::target::infer::{infer_targets, fits_scoring, scorable, scored, insert_all, join};
use crate::target::propagate::{propagate_targets, propagation};
use crate::target::target::{TargetMap, FnTargetV};
use crate::text::{push_str, str_eq, int_str, i64_to_string, string_of};
use crate::lsp::position::{LspPosition, LspRange, position_to_offset, word_at, span_to_range, range_is};

verus! {

/// What a hover shows: markdown text and the range it is about.
#[derive(Debug, Clone)]
pub struct HoverInfo {
    pub value: String,
    pub range: Option<LspRange>,
}

/// A type as hover shows it: named types with their arguments, `void`,
/// `_`, and `?` for any other form.
pub open spec fn hover_type_text(t: Type) -> Seq<char>
    decreases t,
{
    match t {
        Type::Named { name, args, .. } => if args@.len() == 0 {
            name@
        } else {
            name@ + "<"@ + hover_list_text(args@) + ">"@
        },
        Type::Void(_) => "void"@,
        Type::Infer(_) => "_"@,
        _ => "?"@,
    }
}

/// Types as hover shows them, joined by `, `.
pub open spec fn hover_list_text(ts: Seq<Type>) -> Seq<char>
    decreases ts,
{
    if ts.len() == 0 {
        seq![]
    } else if ts.len() == 1 {
        hover_type_text(ts[0])
    } else {
        hover_list_text(ts.drop_last()) + ", "@ + hover_type_text(ts.last())
    }
}

fn hover_type_str(t: &Type) -> (s: String)
    ensures
        s@ == hover_type_text(*t),
    decreases t,
{
    match t {
        Type::Named { name, args, .. } => {
            if args.len() == 0 {
                name.clone()
            } else {
                let mut s = name.clone();
                push_str(&mut s, "<");
                assert(decreases_to!(*t => *args));
                let inner = hover_list_str(args);
                push_str(&mut s, inner.as_str());
                push_str(&mut s, ">");
                s
            }
        },
        Type::Void(_) => string_of("void"),
        Type::Infer(_) => string_of("_"),
        _ => string_of("?"),
    }
}

fn hover_list_str(ts: &Vec<Type>) -> (s: String)
    ensures
        s@ == hover_list_text(ts@),
    decreases ts,
{
    let mut s = String::new();
    let mut i: usize = 0;
    while i < ts.len()
        invariant
            i <= ts@.len(),
            s@ == hover_list_text(ts@.subrange(0, i as int)),
        decreases ts.len() - i,
    {
        if i > 0 {
            push_str(&mut s, ", ");
        }
        assert(decreases_to!(ts => ts@[i as int])) by {
            assert(decreases_to!(ts => ts@));
        }
        let t = hover_type_str(&ts[i]);
        push_str(&mut s, t.as_str());
        proof {
            let sub = ts@.subrange(0, i + 1);
            assert(sub.drop_last() =~= ts@.subrange(0, i as int));
            if i == 0 {
                assert(s@ =~= hover_type_text(sub[0]));
            }
        }
        i = i + 1;
    }
    assert(ts@.subrange(0, i as int) =~= ts@);
    s
}

/// `name: type` for each parameter.
pub open spec fn param_texts(ps: Seq<Param>) -> Seq<Seq<char>> {
    Seq::new(ps.len(), |i: int| ps[i].name@ + ": "@ + hover_type_text(ps[i].ty))
}

/// The line a target decision is shown by.
pub open spec fn target_line(t: Target) -> Seq<char> {
    match t {
        Target::Wasm => "⚙ **WASM** — routes to WebAssembly"@,
        Target::Js => "⚡ **JS** — runs as plain JavaScript"@,
        Target::Auto => "◌ **Auto** — target not yet determined"@,
    }
}

/// The targeting paragraph of a function's hover.
pub open spec fn target_text(r: FnTargetV) -> Seq<char> {
    target_line(r.target) + "  \nCompiler score: `"@ + int_str(r.score as int) + "`  \nReason: "@ + r.reason + "\n"@
        + if r.forced {
        "\n> Targeting forced by attribute override.\n"@
    } else {
        seq![]
    }
}

/// The record named `name` among `es`, if any.
pub open spec fn record_named(es: Seq<(Seq<char>, FnTargetV)>, name: Seq<char>) -> Option<FnTargetV>
    decreases es.len(),
{
    if es.len() == 0 {
        None
    } else if es[0].0 == name {
        Some(es[0].1)
    } else {
        record_named(es.drop_first(), name)
    }
}

/// A function's hover: its signature, then its targeting record if
/// `recs` has one for it.
pub open spec fn fn_hover_text(f: FnDef, recs: Option<Seq<(Seq<char>, FnTargetV)>>) -> Seq<char> {
    "```selvr\nfn "@ + f.name@ + "("@ + join(param_texts(f.params@), ", "@) + ")"@ + match f.return_ty {
        Some(t) => ": "@ + hover_type_text(t),
        None => seq![],
    } + "\n```\n\n"@ + match recs {
        Some(es) => match record_named(es, f.name@) {
            Some(r) => target_text(r),
            None => seq![],
        },
        None => seq![],
    }
}

/// `    name: type,` and a newline, for each field.
pub open spec fn fields_text(fs: Seq<StructField>) -> Seq<char>
    decreases fs.len(),
{
    if fs.len() == 0 {
        seq![]
    } else {
        fields_text(fs.drop_last()) + "    "@ + fs.last().name@ + ": "@ + hover_type_text(fs.last().ty) + ",\n"@
    }
}

pub open spec fn struct_hover_text(s: StructDef) -> Seq<char> {
    "```selvr\nstruct "@ + s.name@ + " {\n"@ + fields_text(s.fields@) + "}\n```"@
}

pub open spec fn enum_hover_text(name: Seq<char>) -> Seq<char> {
    "```selvr\nenum "@ + name + "\n```"@
}

/// The one-line meaning of a keyword.
pub open spec fn keyword_doc_text(w: Seq<char>) -> Option<Seq<char>> {
    if w == "fn"@ {
        Some("Define a function"@)
    } else if w == "const"@ {
        Some("Declare an immutable binding"@)
    } else if w == "let"@ {
        Some("Declare a mutable binding"@)
    } else if w == "return"@ {
        Some("Return a value from the current function"@)
    } else if w == "if"@ {
        Some("Conditional expression"@)
    } else if w == "while"@ {
        Some("Loop while a condition holds"@)
    } else if w == "for"@ {
        Some("Iterate over a range or iterable"@)
    } else if w == "match"@ {
        Some("Exhaustive pattern matching"@)
    } else if w == "struct"@ {
        Some("Define a named record type"@)
    } else if w == "enum"@ {
        Some("Define a sum type with variants"@)
    } else if w == "trait"@ {
        Some("Define a set of methods a type can implement"@)
    } else if w == "impl"@ {
        Some("Implement a trait or add methods to a type"@)
    } else if w == "import"@ {
        Some("Import symbols from another module"@)
    } else if w == "export"@ {
        Some("Make an item visible to importers"@)
    } else if w == "async"@ {
        Some("Mark a function as asynchronous"@)
    } else if w == "await"@ {
        Some("Suspend until an async value resolves"@)
    } else {
        None
    }
}

fn keyword_doc(w: &str) -> (r: Option<&'static str>)
    ensures
        match r {
            Some(d) => keyword_doc_text(w@) == Some(d@),
            None => keyword_doc_text(w@) is None,
        },
{
    if str_eq(w, "fn") {
        Some("Define a function")
    } else if str_eq(w, "const") {
        Some("Declare an immutable binding")
    } else if str_eq(w, "let") {
        Some("Declare a mutable binding")
    } else if str_eq(w, "return") {
        Some("Return a value from the current function")
    } else if str_eq(w, "if") {
        Some("Conditional expression")
    } else if str_eq(w, "while") {
        Some("Loop while a condition holds")
    } else if str_eq(w, "for") {
        Some("Iterate over a range or iterable")
    } else if str_eq(w, "match") {
        Some("Exhaustive pattern matching")
    } else if str_eq(w, "struct") {
        Some("Define a named record type")
    } else if str_eq(w, "enum") {
        Some("Define a sum type with variants")
    } else if str_eq(w, "trait") {
        Some("Define a set of methods a type can implement")
    } else if str_eq(w, "impl") {
        Some("Implement a trait or add methods to a type")
    } else if str_eq(w, "import") {
        Some("Import symbols from another module")
    } else if str_eq(w, "export") {
        Some("Make an item visible to importers")
    } else if str_eq(w, "async") {
        Some("Mark a function as asynchronous")
    } else if str_eq(w, "await") {
        Some("Suspend until an async value resolves")
    } else {
        None
    }
}

pub(crate) proof fn lemma_record_named(es: Seq<(Seq<char>, FnTargetV)>, name: Seq<char>, i: int)
    requires
        crate::target::target::entries_wf(es),
        0 <= i < es.len(),
        es[i].0 == name,
    ensures
        record_named(es, name) == Some(es[i].1),
    decreases es.len(),
{
    if es[0].0 == name {
        if i != 0 {
            assert(es[0].0 != es[i].0);
        }
    } else {
        let sub = es.drop_first();
        assert forall|a: int, b: int| 0 <= a < b < sub.len() implies (#[trigger] sub[a]).0 != (#[trigger] sub[b]).0 by {
            assert(sub[a] == es[a + 1] && sub[b] == es[b + 1]);
        }
        assert forall|a: int| 0 <= a < sub.len() implies (#[trigger] sub[a]).0 == sub[a].1.name by {
            assert(sub[a] == es[a + 1]);
        }
        assert(sub[i - 1] == es[i]);
        lemma_record_named(sub, name, i - 1);
    }
}

pub(crate) proof fn lemma_record_absent(es: Seq<(Seq<char>, FnTargetV)>, name: Seq<char>)
    requires
        forall|i: int| 0 <= i < es.len() ==> (#[trigger] es[i]).0 != name,
    ensures
        record_named(es, name) is None,
    decreases es.len(),
{
    if es.len() > 0 {
        let sub = es.drop_first();
        assert forall|i: int| 0 <= i < sub.len() implies (#[trigger] sub[i]).0 != name by {
            assert(sub[i] == es[i + 1]);
        }
        lemma_record_absent(sub, name);
    }
}

fn target_str(r: &crate::target::target::FnTarget) -> (s: String)
    ensures
        s@ == target_text(r@),
{
    let mut s = match r.target {
        Target::Wasm => string_of("⚙ **WASM** — routes to WebAssembly"),
        Target::Js => string_of("⚡ **JS** — runs as plain JavaScript"),
        Target::Auto => string_of("◌ **Auto** — target not yet determined"),
    };
    push_str(&mut s, "  \nCompiler score: `");
    push_str(&mut s, i64_to_string(r.score as i64).as_str());
    push_str(&mut s, "`  \nReason: ");
    push_str(&mut s, r.reason.as_str());
    push_str(&mut s, "\n");
    if r.forced {
        push_str(&mut s, "\n> Targeting forced by attribute override.\n");
    }
    s
}

/// Each parameter's `name: type`, joined by `, `.
fn params_str(ps: &Vec<Param>) -> (s: String)
    ensures
        s@ == join(param_texts(ps@), ", "@),
{
    let ghost parts = param_texts(ps@);
    let mut s = String::new();
    let mut i: usize = 0;
    while i < ps.len()
        invariant
            i <= ps@.len(),
            parts == param_texts(ps@),
            s@ == join(parts.subrange(0, i as int), ", "@),
        decreases ps.len() - i,
    {
        if i > 0 {
            push_str(&mut s, ", ");
        }
        push_str(&mut s, ps[i].name.as_str());
        push_str(&mut s, ": ");
        let t = hover_type_str(&ps[i].ty);
        push_str(&mut s, t.as_str());
        proof {
            let sub = parts.subrange(0, i + 1);
            assert(sub.drop_last() =~= parts.subrange(0, i as int));
            assert(sub.last() == parts[i as int]);
            if i == 0 {
                assert(s@ =~= sub[0]);
            } else {
                assert(s@ =~= join(sub.drop_last(), ", "@) + ", "@ + sub.last());
            }
        }
        i = i + 1;
    }
    assert(parts.subrange(0, i as int) =~= parts);
    s
}

/// The recorded entries of `map`, if there is a map.
pub open spec fn recs_of(map: Option<&TargetMap>) -> Option<Seq<(Seq<char>, FnTargetV)>> {
    match map {
        Some(m) => Some(m.entries()),
        None => None,
    }
}

fn fn_hover(f: &FnDef, map: Option<&TargetMap>) -> (s: String)
    requires
        map matches Some(m) ==> m.wf(),
    ensures
        s@ == fn_hover_text(*f, recs_of(map)),
{
    let mut s = string_of("```selvr\nfn ");
    push_str(&mut s, f.name.as_str());
    push_str(&mut s, "(");
    push_str(&mut s, params_str(&f.params).as_str());
    push_str(&mut s, ")");
    match &f.return_ty {
        Some(t) => {
            push_str(&mut s, ": ");
            push_str(&mut s, hover_type_str(t).as_str());
        },
        None => {},
    }
    push_str(&mut s, "\n```\n\n");
    match map {
        Some(m) => {
            match m.get(f.name.as_str()) {
                Some(rec) => {
                    proof {
                        let i = choose|i: int| 0 <= i < m.entries().len() && m.entries()[i].0 == f.name@ && rec@ == m.entries()[i].1;
                        lemma_record_named(m.entries(), f.name@, i);
                    }
                    push_str(&mut s, target_str(rec).as_str());
                },
                None => {
                    proof {
                        lemma_record_absent(m.entries(), f.name@);
                    }
                },
            }
        },
        None => {},
    }
    s
}

fn struct_hover(sd: &StructDef) -> (s: String)
    ensures
        s@ == struct_hover_text(*sd),
{
    let mut s = string_of("```selvr\nstruct ");
    push_str(&mut s, sd.name.as_str());
    push_str(&mut s, " {\n");
    let ghost head = s@;
    let mut i: usize = 0;
    while i < sd.fields.len()
        invariant
            i <= sd.fields@.len(),
            s@ == head + fields_text(sd.fields@.subrange(0, i as int)),
        decreases sd.fields.len() - i,
    {
        push_str(&mut s, "    ");
        push_str(&mut s, sd.fields[i].name.as_str());
        push_str(&mut s, ": ");
        push_str(&mut s, hover_type_str(&sd.fields[i].ty).as_str());
        push_str(&mut s, ",\n");
        proof {
            let sub = sd.fields@.subrange(0, i + 1);
            assert(sub.drop_last() =~= sd.fields@.subrange(0, i as int));
        }
        i = i + 1;
    }
    assert(sd.fields@.subrange(0, i as int) =~= sd.fields@);
    push_str(&mut s, "}\n```");
    s
}

/// The hover of a top-level item named `word`: its text and span.
pub open spec fn item_hover(it: Item, recs: Option<Seq<(Seq<char>, FnTargetV)>>, word: Seq<char>) -> Option<(Seq<char>, crate::token::Span)> {
    match it {
        Item::FnDef(f) => if f.name@ == word { Some((fn_hover_text(f, recs), f.span)) } else { None },
        Item::StructDef(sd) => if sd.name@ == word { Some((struct_hover_text(sd), sd.span)) } else { None },
        Item::EnumDef(e) => if e.name@ == word { Some((enum_hover_text(e.name@), e.span)) } else { None },
        _ => None,
    }
}

/// The hover of the first of `items` that has one for `word`.
pub open spec fn items_hover(items: Seq<Item>, recs: Option<Seq<(Seq<char>, FnTargetV)>>, word: Seq<char>) -> Option<(Seq<char>, crate::token::Span)>
    decreases items.len(),
{
    if items.len() == 0 {
        None
    } else {
        match item_hover(items[0], recs, word) {
            Some(h) => Some(h),
            None => items_hover(items.drop_first(), recs, word),
        }
    }
}

/// The hover for `word` over a parsed module of `src` and, where there is
/// one, its targeting map: the first function, struct or enum of that name,
/// else the keyword's meaning.
pub fn hover_word(src: &str, module: &Module, map: Option<&TargetMap>, word: &str) -> (r: Option<HoverInfo>)
    requires
        map matches Some(m) ==> m.wf(),
    ensures
        match items_hover(module.items@, recs_of(map), word@) {
            Some(h) => r is Some && r->0.value@ == h.0 && r->0.range is Some && (src.spec_bytes().len() <= u32::MAX
                ==> range_is(src.spec_bytes(), h.1, r->0.range->0)),
            None => match keyword_doc_text(word@) {
                Some(d) => r is Some && r->0.value@ == "**`"@ + word@ + "`** — "@ + d && r->0.range is None,
                None => r is None,
            },
        },
{
    let mut i: usize = 0;
    assert(module.items@.subrange(0, module.items@.len() as int) =~= module.items@);
    while i < module.items.len()
        invariant
            i <= module.items@.len(),
            map matches Some(m) ==> m.wf(),
            items_hover(module.items@, recs_of(map), word@) == items_hover(module.items@.subrange(i as int, module.items@.len() as int), recs_of(map), word@),
        decreases module.items.len() - i,
    {
        let ghost rest = module.items@.subrange(i as int, module.items@.len() as int);
        assert(rest[0] == module.items@[i as int]);
        assert(rest.drop_first() =~= module.items@.subrange(i + 1, module.items@.len() as int));
        match &module.items[i] {
            Item::FnDef(f) => {
                if str_eq(f.name.as_str(), word) {
                    let value = fn_hover(f, map);
                    return Some(HoverInfo { value, range: Some(span_to_range(src, f.span)) });
                }
            },
            Item::StructDef(sd) => {
                if str_eq(sd.name.as_str(), word) {
                    let value = struct_hover(sd);
                    return Some(HoverInfo { value, range: Some(span_to_range(src, sd.span)) });
                }
            },
            Item::EnumDef(e) => {
                if str_eq(e.name.as_str(), word) {
                    let mut value = string_of("```selvr\nenum ");
                    push_str(&mut value, e.name.as_str());
                    push_str(&mut value, "\n```");
                    return Some(HoverInfo { value, range: Some(span_to_range(src, e.span)) });
                }
            },
            _ => {},
        }
        i = i + 1;
    }
    match keyword_doc(word) {
        Some(doc) => {
            let mut value = string_of("**`");
            push_str(&mut value, word);
            push_str(&mut value, "`** — ");
            push_str(&mut value, doc);
            Some(HoverInfo { value, range: None })
        },
        None => None,
    }
}

/// The targeting map of a module, where it can be lowered and every
/// function scored: targets inferred, then propagated over the call graph.
pub fn target_analysis(module: &Module) -> (r: Option<TargetMap>)
    ensures
        r matches Some(m) ==> m.wf(),
        !(forall|i: int| 0 <= i < module.items@.len() ==> item_lowerable(#[trigger] module.items@[i])) ==> r is None,
        r matches Some(m) ==> exists|fs: Seq<IrFn>, recs: Seq<FnTargetV>|
            {
                &&& recs.len() == fs.len()
                &&& forall|i: int| 0 <= i < recs.len() ==> scored(fs[i], #[trigger] recs[i])
                &&& m.entries() == propagation(insert_all(Seq::empty(), recs)).es
            },
{
    if !module_lowerable(module) {
        return None;
    }
    let mut ir = lower_module(module);
    let mut k: usize = 0;
    while k < ir.fns.len()
        invariant
            k <= ir.fns@.len(),
            forall|j: int| 0 <= j < k ==> scorable(#[trigger] ir.fns@[j]),
        decreases ir.fns.len() - k,
    {
        if !fits_scoring(&ir.fns[k]) {
            return None;
        }
        k = k + 1;
    }
    let ghost fs = ir.fns@;
    let mut map = infer_targets(&mut ir);
    let ghost es0 = map.entries();
    let _changed = propagate_targets(&mut ir, &mut map);
    Some(map)
}

/// The hover at `pos` in `src`: the word under the cursor, looked up in the
/// module that `src` parses to (see [`hover_word`]).
pub fn hover(src: &str, pos: LspPosition) -> (r: Option<HoverInfo>)
    requires
        4 * src@.len() < u32::MAX,
    ensures
        r is Some ==> exists|k: int|
            0 <= k < src@.len() && crate::lsp::position::char_pos(src@, k) == (pos.line as int, pos.character as int),
{
    let offset = match position_to_offset(src, pos) {
        Some(o) => o,
        None => return None,
    };
    let word = match word_at(src, offset) {
        Some(w) => w,
        None => return None,
    };
    let (tokens, _) = Lexer::new(src, 0).tokenize();
    let (module, _) = Parser::new(tokens, 0).parse();
    let map = target_analysis(&module);
    match &map {
        Some(m) => hover_word(src, &module, Some(m), word.as_str()),
        None => hover_word(src, &module, None, word.as_str()),
    }
}

} // verus!
