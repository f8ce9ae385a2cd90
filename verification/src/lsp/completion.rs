//! Completion entries: keywords, built-in types, compiler attributes, and
//! the top-level names of the current file.

use vstd::prelude::*;
use crate::ast::{Module, Item, Type, FnDef, Param};
use crate::lexer::Lexer;
use crate::parser::Parser;
use crate::target::infer::join;
use crate::text::{push_str, string_of};
use crate::lsp::position::LspPosition;

verus! {

/// What a completion entry offers.
#[derive(Debug, Clone, Copy, PartialEq, Eq, Structural)]
pub enum CompletionKind {
    Keyword,
    Class,
    Snippet,
    Function,
    Struct,
    Enum,
    Interface,
    Constant,
}

/// One completion entry.
#[derive(Debug, Clone)]
pub struct CompletionEntry {
    pub label: String,
    pub kind: CompletionKind,
    pub detail: String,
}

impl View for CompletionEntry {
    type V = (Seq<char>, CompletionKind, Seq<char>);

    open spec fn view(&self) -> (Seq<char>, CompletionKind, Seq<char>) {
        (self.label@, self.kind, self.detail@)
    }
}

/// The keywords, each with its meaning.
pub open spec fn keyword_table() -> Seq<(Seq<char>, Seq<char>)> {
    seq![
        ("fn"@, "Define a function"@),
        ("const"@, "Immutable binding"@),
        ("let"@, "Mutable binding"@),
        ("return"@, "Return from function"@),
        ("if"@, "Conditional"@),
        ("else"@, "Else branch"@),
        ("while"@, "Loop while condition is true"@),
        ("for"@, "Iterate over a range or iterator"@),
        ("in"@, "Used in for…in"@),
        ("break"@, "Exit a loop"@),
        ("continue"@, "Skip to next iteration"@),
        ("match"@, "Pattern match"@),
        ("struct"@, "Define a struct"@),
        ("enum"@, "Define an enum"@),
        ("trait"@, "Define a trait"@),
        ("impl"@, "Implement a trait or add methods"@),
        ("type"@, "Type alias"@),
        ("import"@, "Import from a module"@),
        ("export"@, "Make an item public"@),
        ("mod"@, "Declare a sub-module"@),
        ("async"@, "Mark function as async"@),
        ("await"@, "Await an async expression"@),
        ("true"@, "Boolean true"@),
        ("false"@, "Boolean false"@),
        ("null"@, "Null value"@),
        ("void"@, "Void return type"@),
        ("as"@, "Type cast"@),
    ]
}

/// The built-in type names.
pub open spec fn type_table() -> Seq<Seq<char>> {
    seq![
        "i8"@, "i16"@, "i32"@, "i64"@, "i128"@,
        "u8"@, "u16"@, "u32"@, "u64"@, "u128"@,
        "f32"@, "f64"@,
        "bool"@, "string"@, "char"@, "void"@,
        "Option"@, "Result"@,
    ]
}

/// The compiler attributes, each with its meaning.
pub open spec fn attr_table() -> Seq<(Seq<char>, Seq<char>)> {
    seq![
        ("#[wasm]"@, "Force this function to run in WebAssembly"@),
        ("#[js]"@, "Force this function to run in JavaScript"@),
        ("#[test]"@, "Mark as a test function"@),
        ("#[inline]"@, "Hint to inline this function"@),
        ("#[gpu]"@, "Route to WebGPU compute (stretch goal)"@),
    ]
}

/// The entries offered whatever the file holds: keywords, then built-in
/// types, then attributes.
pub open spec fn builtin_entries() -> Seq<(Seq<char>, CompletionKind, Seq<char>)> {
    keyword_table().map_values(|e: (Seq<char>, Seq<char>)| (e.0, CompletionKind::Keyword, e.1))
        + type_table().map_values(|t: Seq<char>| (t, CompletionKind::Class, "built-in type"@))
        + attr_table().map_values(|e: (Seq<char>, Seq<char>)| (e.0, CompletionKind::Snippet, e.1))
}

/// A type as a signature shows it: named types with their arguments,
/// tuples, `void`, `_`, and `?` for any other form.
pub open spec fn sig_type_text(t: Type) -> Seq<char>
    decreases t,
{
    match t {
        Type::Named { name, args, .. } => if args@.len() == 0 {
            name@
        } else {
            name@ + "<"@ + sig_list_text(args@) + ">"@
        },
        Type::Void(_) => "void"@,
        Type::Infer(_) => "_"@,
        Type::Tuple { elems, .. } => "("@ + sig_list_text(elems@) + ")"@,
        _ => "?"@,
    }
}

/// Types as a signature shows them, joined by `, `.
pub open spec fn sig_list_text(ts: Seq<Type>) -> Seq<char>
    decreases ts,
{
    if ts.len() == 0 {
        seq![]
    } else if ts.len() == 1 {
        sig_type_text(ts[0])
    } else {
        sig_list_text(ts.drop_last()) + ", "@ + sig_type_text(ts.last())
    }
}

fn sig_type_str(t: &Type) -> (s: String)
    ensures
        s@ == sig_type_text(*t),
    decreases t,
{
    match t {
        Type::Named { name, args, .. } => {
            if args.len() == 0 {
                name.clone()
            } else {
                let mut s = name.clone();
                push_str(&mut s, "<");
                assert(decreases_to!(*t => *args));
                let inner = sig_list_str(args);
                push_str(&mut s, inner.as_str());
                push_str(&mut s, ">");
                s
            }
        },
        Type::Tuple { elems, .. } => {
            let mut s = string_of("(");
            assert(decreases_to!(*t => *elems));
            let inner = sig_list_str(elems);
            push_str(&mut s, inner.as_str());
            push_str(&mut s, ")");
            s
        },
        Type::Void(_) => string_of("void"),
        Type::Infer(_) => string_of("_"),
        _ => string_of("?"),
    }
}

fn sig_list_str(ts: &Vec<Type>) -> (s: String)
    ensures
        s@ == sig_list_text(ts@),
    decreases ts,
{
    let mut s = String::new();
    let mut i: usize = 0;
    while i < ts.len()
        invariant
            i <= ts@.len(),
            s@ == sig_list_text(ts@.subrange(0, i as int)),
        decreases ts.len() - i,
    {
        if i > 0 {
            push_str(&mut s, ", ");
        }
        assert(decreases_to!(ts => ts@[i as int])) by {
            assert(decreases_to!(ts => ts@));
        }
        let t = sig_type_str(&ts[i]);
        push_str(&mut s, t.as_str());
        proof {
            let sub = ts@.subrange(0, i + 1);
            assert(sub.drop_last() =~= ts@.subrange(0, i as int));
            if i == 0 {
                assert(s@ =~= sig_type_text(sub[0]));
            }
        }
        i = i + 1;
    }
    assert(ts@.subrange(0, i as int) =~= ts@);
    s
}

/// `fn(name: type, ...)` and `: type` where a return type is written.
pub open spec fn fn_signature_text(f: FnDef) -> Seq<char> {
    "fn("@ + join(Seq::new(f.params@.len(), |i: int| f.params@[i].name@ + ": "@ + sig_type_text(f.params@[i].ty)), ", "@)
        + ")"@ + match f.return_ty {
        Some(t) => ": "@ + sig_type_text(t),
        None => seq![],
    }
}

fn fn_signature(f: &FnDef) -> (s: String)
    ensures
        s@ == fn_signature_text(*f),
{
    let ghost parts = Seq::new(f.params@.len(), |i: int| f.params@[i].name@ + ": "@ + sig_type_text(f.params@[i].ty));
    let mut s = string_of("fn(");
    let ghost head = s@;
    let mut i: usize = 0;
    while i < f.params.len()
        invariant
            i <= f.params@.len(),
            parts == Seq::new(f.params@.len(), |i: int| f.params@[i].name@ + ": "@ + sig_type_text(f.params@[i].ty)),
            s@ == head + join(parts.subrange(0, i as int), ", "@),
        decreases f.params.len() - i,
    {
        let ghost before = s@;
        if i > 0 {
            push_str(&mut s, ", ");
        }
        push_str(&mut s, f.params[i].name.as_str());
        push_str(&mut s, ": ");
        let t = sig_type_str(&f.params[i].ty);
        push_str(&mut s, t.as_str());
        proof {
            let sub = parts.subrange(0, i + 1);
            assert(sub.drop_last() =~= parts.subrange(0, i as int));
            assert(sub.last() == parts[i as int]);
            if i == 0 {
                assert(s@ =~= head + sub[0]);
            } else {
                assert(s@ =~= head + (join(sub.drop_last(), ", "@) + ", "@ + sub.last()));
            }
        }
        i = i + 1;
    }
    assert(parts.subrange(0, i as int) =~= parts);
    push_str(&mut s, ")");
    match &f.return_ty {
        Some(t) => {
            push_str(&mut s, ": ");
            push_str(&mut s, sig_type_str(t).as_str());
        },
        None => {},
    }
    s
}

/// The entry a top-level item gives, if any.
pub open spec fn item_entry(it: Item) -> Option<(Seq<char>, CompletionKind, Seq<char>)> {
    match it {
        Item::FnDef(f) => Some((f.name@, CompletionKind::Function, fn_signature_text(f))),
        Item::StructDef(s) => Some((s.name@, CompletionKind::Struct, "struct"@)),
        Item::EnumDef(e) => Some((e.name@, CompletionKind::Enum, "enum"@)),
        Item::TraitDef(t) => Some((t.name@, CompletionKind::Interface, "trait"@)),
        Item::Const(c) => Some((c.name@, CompletionKind::Constant, "const"@)),
        _ => None,
    }
}

/// The entries the items give, in order.
pub open spec fn item_entries(items: Seq<Item>) -> Seq<(Seq<char>, CompletionKind, Seq<char>)>
    decreases items.len(),
{
    if items.len() == 0 {
        seq![]
    } else {
        item_entries(items.drop_last()) + match item_entry(items.last()) {
            Some(e) => seq![e],
            None => seq![],
        }
    }
}

fn entry(label: &str, kind: CompletionKind, detail: &str) -> (e: CompletionEntry)
    ensures
        e@ == (label@, kind, detail@),
{
    CompletionEntry { label: string_of(label), kind, detail: string_of(detail) }
}

/// The entries offered whatever the file holds.
pub fn builtin_completions() -> (r: Vec<CompletionEntry>)
    ensures
        r@.map_values(|e: CompletionEntry| e@) == builtin_entries(),
{
    let mut r: Vec<CompletionEntry> = Vec::new();
    let k = CompletionKind::Keyword;
    r.push(entry("fn", k, "Define a function"));
    r.push(entry("const", k, "Immutable binding"));
    r.push(entry("let", k, "Mutable binding"));
    r.push(entry("return", k, "Return from function"));
    r.push(entry("if", k, "Conditional"));
    r.push(entry("else", k, "Else branch"));
    r.push(entry("while", k, "Loop while condition is true"));
    r.push(entry("for", k, "Iterate over a range or iterator"));
    r.push(entry("in", k, "Used in for…in"));
    r.push(entry("break", k, "Exit a loop"));
    r.push(entry("continue", k, "Skip to next iteration"));
    r.push(entry("match", k, "Pattern match"));
    r.push(entry("struct", k, "Define a struct"));
    r.push(entry("enum", k, "Define an enum"));
    r.push(entry("trait", k, "Define a trait"));
    r.push(entry("impl", k, "Implement a trait or add methods"));
    r.push(entry("type", k, "Type alias"));
    r.push(entry("import", k, "Import from a module"));
    r.push(entry("export", k, "Make an item public"));
    r.push(entry("mod", k, "Declare a sub-module"));
    r.push(entry("async", k, "Mark function as async"));
    r.push(entry("await", k, "Await an async expression"));
    r.push(entry("true", k, "Boolean true"));
    r.push(entry("false", k, "Boolean false"));
    r.push(entry("null", k, "Null value"));
    r.push(entry("void", k, "Void return type"));
    r.push(entry("as", k, "Type cast"));
    let c = CompletionKind::Class;
    let bt = "built-in type";
    r.push(entry("i8", c, bt));
    r.push(entry("i16", c, bt));
    r.push(entry("i32", c, bt));
    r.push(entry("i64", c, bt));
    r.push(entry("i128", c, bt));
    r.push(entry("u8", c, bt));
    r.push(entry("u16", c, bt));
    r.push(entry("u32", c, bt));
    r.push(entry("u64", c, bt));
    r.push(entry("u128", c, bt));
    r.push(entry("f32", c, bt));
    r.push(entry("f64", c, bt));
    r.push(entry("bool", c, bt));
    r.push(entry("string", c, bt));
    r.push(entry("char", c, bt));
    r.push(entry("void", c, bt));
    r.push(entry("Option", c, bt));
    r.push(entry("Result", c, bt));
    let sn = CompletionKind::Snippet;
    r.push(entry("#[wasm]", sn, "Force this function to run in WebAssembly"));
    r.push(entry("#[js]", sn, "Force this function to run in JavaScript"));
    r.push(entry("#[test]", sn, "Mark as a test function"));
    r.push(entry("#[inline]", sn, "Hint to inline this function"));
    r.push(entry("#[gpu]", sn, "Route to WebGPU compute (stretch goal)"));
    assert(r@.map_values(|e: CompletionEntry| e@) =~= builtin_entries());
    r
}

/// The built-in entries, then one for each function, struct, enum, trait
/// and constant of `module`, in order.
pub fn module_completions(module: &Module) -> (r: Vec<CompletionEntry>)
    ensures
        r@.map_values(|e: CompletionEntry| e@) == builtin_entries() + item_entries(module.items@),
{
    let mut r = builtin_completions();
    let mut i: usize = 0;
    while i < module.items.len()
        invariant
            i <= module.items@.len(),
            r@.map_values(|e: CompletionEntry| e@) == builtin_entries() + item_entries(module.items@.subrange(0, i as int)),
        decreases module.items.len() - i,
    {
        let ghost before = r@;
        match &module.items[i] {
            Item::FnDef(f) => r.push(CompletionEntry { label: f.name.clone(), kind: CompletionKind::Function, detail: fn_signature(f) }),
            Item::StructDef(s) => r.push(entry(s.name.as_str(), CompletionKind::Struct, "struct")),
            Item::EnumDef(e) => r.push(entry(e.name.as_str(), CompletionKind::Enum, "enum")),
            Item::TraitDef(t) => r.push(entry(t.name.as_str(), CompletionKind::Interface, "trait")),
            Item::Const(c) => r.push(entry(c.name.as_str(), CompletionKind::Constant, "const")),
            _ => {},
        }
        proof {
            let sub = module.items@.subrange(0, i + 1);
            assert(sub.drop_last() =~= module.items@.subrange(0, i as int));
            assert(sub.last() == module.items@[i as int]);
            match item_entry(module.items@[i as int]) {
                Some(x) => {
                    assert(r@ == before.push(r@.last()));
                    assert(r@.last()@ == x);
                    assert(item_entries(sub) == item_entries(sub.drop_last()) + seq![x]);
                    assert(r@.map_values(|e: CompletionEntry| e@) =~= before.map_values(|e: CompletionEntry| e@).push(x));
                    assert(builtin_entries() + item_entries(sub) =~= (builtin_entries() + item_entries(sub.drop_last())).push(x));
                },
                None => {
                    assert(r@ == before);
                },
            }
            assert(r@.map_values(|e: CompletionEntry| e@) =~= builtin_entries() + item_entries(sub));
        }
        i = i + 1;
    }
    assert(module.items@.subrange(0, i as int) =~= module.items@);
    r
}

/// Completions for `src`: the built-in entries, then the top-level names of
/// the module it parses to (see [`module_completions`]).  The position is
/// not consulted.
pub fn completions(src: &str, pos: LspPosition) -> (r: Vec<CompletionEntry>)
    requires
        4 * src@.len() < usize::MAX,
    ensures
        r@.len() >= builtin_entries().len(),
        r@.subrange(0, builtin_entries().len() as int).map_values(|e: CompletionEntry| e@) == builtin_entries(),
{
    let (tokens, _) = Lexer::new(src, 0).tokenize();
    let (module, _) = Parser::new(tokens, 0).parse();
    let r = module_completions(&module);
    proof {
        let n = builtin_entries().len() as int;
        let m = r@.map_values(|e: CompletionEntry| e@);
        assert(m.len() == r@.len());
        assert(r@.subrange(0, n).map_values(|e: CompletionEntry| e@) =~= m.subrange(0, n));
        assert(m.subrange(0, n) =~= builtin_entries());
    }
    r
}

} // verus!
