//! Semantic types, as the type checker works with them (distinct from the
//! syntactic `ast::Type`).  Struct fields and enum variants are kept as
//! ordered `(name, …)` lists.

use vstd::prelude::*;
use crate::text::{string_of, push_str, u64_to_string, nat_digits};

verus! {

broadcast use vstd::std_specs::vec::axiom_vec_index_decreases;

/// A type variable produced during inference.
#[derive(Debug, Clone, Copy, PartialEq, Eq, Hash, Structural)]
pub struct TyVarId(pub u32);

/// A semantic type.
#[derive(Debug, PartialEq)]
pub enum Ty {
    I32,
    I64,
    F32,
    F64,
    Bool,
    Str,
    Char,
    Void,
    Tuple(Vec<Ty>),
    Array { elem: Box<Ty>, len: Option<usize> },
    Fn { params: Vec<Ty>, ret: Box<Ty>, is_async: bool },
    Struct { name: String, fields: Vec<(String, Ty)> },
    Enum { name: String, variants: Vec<(String, VariantTy)> },
    /// A generic application such as `Option<i32>`.
    App { ctor: String, args: Vec<Ty> },
    /// An inference variable.
    Var(TyVarId),
    /// Error sentinel, propagated silently after the first report.
    Error,
}

#[derive(Debug, PartialEq)]
pub enum VariantTy {
    Unit,
    Tuple(Vec<Ty>),
    Struct(Vec<(String, Ty)>),
}

/// The types joined by `, `, each as its display text.
pub open spec fn list_text(ts: Seq<Ty>) -> Seq<char>
    decreases ts,
{
    if ts.len() == 0 {
        seq![]
    } else if ts.len() == 1 {
        ts[0].text()
    } else {
        list_text(ts.drop_last()) + ", "@ + ts.last().text()
    }
}

impl Ty {
    pub open spec fn numeric(&self) -> bool {
        *self is I32 || *self is I64 || *self is F32 || *self is F64
    }

    pub fn is_numeric(&self) -> (b: bool)
        ensures
            b == self.numeric(),
    {
        match self {
            Ty::I32 | Ty::I64 | Ty::F32 | Ty::F64 => true,
            _ => false,
        }
    }

    pub fn is_integral(&self) -> (b: bool)
        ensures
            b == (*self is I32 || *self is I64),
    {
        match self {
            Ty::I32 | Ty::I64 => true,
            _ => false,
        }
    }

    pub fn is_error(&self) -> (b: bool)
        ensures
            b == (*self is Error),
    {
        match self {
            Ty::Error => true,
            _ => false,
        }
    }

    /// The name used for the type in error messages.
    pub open spec fn text(self) -> Seq<char>
        decreases self,
    {
        match self {
            Ty::I32 => "i32"@,
            Ty::I64 => "i64"@,
            Ty::F32 => "f32"@,
            Ty::F64 => "f64"@,
            Ty::Bool => "bool"@,
            Ty::Str => "str"@,
            Ty::Char => "char"@,
            Ty::Void => "void"@,
            Ty::Tuple(ts) => "("@ + list_text(ts@) + ")"@,
            Ty::App { ctor, args } => if args@.len() == 0 {
                ctor@
            } else {
                ctor@ + "<"@ + list_text(args@) + ">"@
            },
            Ty::Var(id) => "?T"@ + nat_digits(id.0 as nat),
            Ty::Error => "<error>"@,
            Ty::Struct { name, .. } => name@,
            Ty::Enum { name, .. } => name@,
            Ty::Array { elem, len } => match len {
                Some(n) => "["@ + elem.text() + "; "@ + nat_digits(n as nat) + "]"@,
                None => "["@ + elem.text() + "]"@,
            },
            Ty::Fn { params, ret, .. } => "fn("@ + list_text(params@) + ") -> "@ + ret.text(),
        }
    }

    /// Human-readable name for error messages.
    pub fn display(&self) -> (s: String)
        ensures
            s@ == self.text(),
        decreases self,
    {
        match self {
            Ty::I32 => string_of("i32"),
            Ty::I64 => string_of("i64"),
            Ty::F32 => string_of("f32"),
            Ty::F64 => string_of("f64"),
            Ty::Bool => string_of("bool"),
            Ty::Str => string_of("str"),
            Ty::Char => string_of("char"),
            Ty::Void => string_of("void"),
            Ty::Tuple(ts) => {
                let mut s = string_of("(");
                assert(decreases_to!(*self => *ts));
                let inner = display_list(ts);
                push_str(&mut s, inner.as_str());
                push_str(&mut s, ")");
                s
            },
            Ty::App { ctor, args } => {
                if args.len() == 0 {
                    ctor.clone()
                } else {
                    let mut s = ctor.clone();
                    push_str(&mut s, "<");
                    assert(decreases_to!(*self => *args));
                    let inner = display_list(args);
                    push_str(&mut s, inner.as_str());
                    push_str(&mut s, ">");
                    s
                }
            },
            Ty::Var(id) => {
                let mut s = string_of("?T");
                push_str(&mut s, u64_to_string(id.0 as u64).as_str());
                s
            },
            Ty::Error => string_of("<error>"),
            Ty::Struct { name, .. } => name.clone(),
            Ty::Enum { name, .. } => name.clone(),
            Ty::Array { elem, len } => {
                let mut s = string_of("[");
                let e = elem.display();
                push_str(&mut s, e.as_str());
                match len {
                    Some(n) => {
                        push_str(&mut s, "; ");
                        push_str(&mut s, u64_to_string(*n as u64).as_str());
                    },
                    None => {},
                }
                push_str(&mut s, "]");
                s
            },
            Ty::Fn { params, ret, .. } => {
                let mut s = string_of("fn(");
                assert(decreases_to!(*self => *params));
                let ps = display_list(params);
                push_str(&mut s, ps.as_str());
                push_str(&mut s, ") -> ");
                let r = ret.display();
                push_str(&mut s, r.as_str());
                s
            },
        }
    }

    /// Values of the type are copied, not moved.
    pub open spec fn copy_spec(self) -> bool {
        self is I32 || self is I64 || self is F32 || self is F64 || self is Bool || self is Char
    }

    /// A deep copy of the type.
    pub fn duplicate(&self) -> (r: Ty)
        ensures
            r.copy_spec() == self.copy_spec(),
            r.numeric() == self.numeric(),
        decreases self,
    {
        match self {
            Ty::I32 => Ty::I32,
            Ty::I64 => Ty::I64,
            Ty::F32 => Ty::F32,
            Ty::F64 => Ty::F64,
            Ty::Bool => Ty::Bool,
            Ty::Str => Ty::Str,
            Ty::Char => Ty::Char,
            Ty::Void => Ty::Void,
            Ty::Tuple(ts) => {
                assert(decreases_to!(*self => *ts));
                Ty::Tuple(duplicate_list(ts))
            },
            Ty::Array { elem, len } => Ty::Array { elem: Box::new(elem.duplicate()), len: *len },
            Ty::Fn { params, ret, is_async } => {
                assert(decreases_to!(*self => *params));
                Ty::Fn { params: duplicate_list(params), ret: Box::new(ret.duplicate()), is_async: *is_async }
            },
            Ty::Struct { name, fields } => {
                assert(decreases_to!(*self => *fields));
                Ty::Struct { name: name.clone(), fields: duplicate_fields(fields) }
            },
            Ty::Enum { name, variants } => {
                assert(decreases_to!(*self => *variants));
                Ty::Enum { name: name.clone(), variants: duplicate_variants(variants) }
            },
            Ty::App { ctor, args } => {
                assert(decreases_to!(*self => *args));
                Ty::App { ctor: ctor.clone(), args: duplicate_list(args) }
            },
            Ty::Var(id) => Ty::Var(*id),
            Ty::Error => Ty::Error,
        }
    }
}

fn display_list(ts: &Vec<Ty>) -> (s: String)
    ensures
        s@ == list_text(ts@),
    decreases ts,
{
    let mut s = String::new();
    let mut i: usize = 0;
    while i < ts.len()
        invariant
            i <= ts@.len(),
            s@ == list_text(ts@.subrange(0, i as int)),
        decreases ts.len() - i,
    {
        let ghost before = s@;
        if i > 0 {
            push_str(&mut s, ", ");
        }
        assert(decreases_to!(ts => ts@[i as int])) by {
            assert(decreases_to!(ts => ts@));
        }
        let t = ts[i].display();
        push_str(&mut s, t.as_str());
        proof {
            let sub = ts@.subrange(0, i + 1);
            assert(sub.drop_last() =~= ts@.subrange(0, i as int));
            if i == 0 {
                assert(s@ =~= sub[0].text());
            }
        }
        i = i + 1;
    }
    assert(ts@.subrange(0, i as int) =~= ts@);
    s
}

fn duplicate_list(ts: &Vec<Ty>) -> (r: Vec<Ty>)
    ensures
        r@.len() == ts@.len(),
    decreases ts,
{
    let mut r: Vec<Ty> = Vec::new();
    let mut i: usize = 0;
    while i < ts.len()
        invariant
            i <= ts@.len(),
            r@.len() == i,
        decreases ts.len() - i,
    {
        assert(decreases_to!(ts => ts@[i as int])) by {
            assert(decreases_to!(ts => ts@));
        }
        r.push(ts[i].duplicate());
        i = i + 1;
    }
    r
}

fn duplicate_fields(fs: &Vec<(String, Ty)>) -> (r: Vec<(String, Ty)>)
    ensures
        r@.len() == fs@.len(),
    decreases fs,
{
    let mut r: Vec<(String, Ty)> = Vec::new();
    let mut i: usize = 0;
    while i < fs.len()
        invariant
            i <= fs@.len(),
            r@.len() == i,
        decreases fs.len() - i,
    {
        assert(decreases_to!(fs => fs@[i as int].1)) by {
            assert(decreases_to!(fs => fs@));
            assert(decreases_to!(fs@ => fs@[i as int]));
        }
        r.push((fs[i].0.clone(), fs[i].1.duplicate()));
        i = i + 1;
    }
    r
}

fn duplicate_variants(vs: &Vec<(String, VariantTy)>) -> (r: Vec<(String, VariantTy)>)
    ensures
        r@.len() == vs@.len(),
    decreases vs,
{
    let mut r: Vec<(String, VariantTy)> = Vec::new();
    let mut i: usize = 0;
    while i < vs.len()
        invariant
            i <= vs@.len(),
            r@.len() == i,
        decreases vs.len() - i,
    {
        assert(decreases_to!(vs => vs@[i as int].1)) by {
            assert(decreases_to!(vs => vs@));
            assert(decreases_to!(vs@ => vs@[i as int]));
        }
        let v = match &vs[i].1 {
            VariantTy::Unit => VariantTy::Unit,
            VariantTy::Tuple(ts) => {
                assert(decreases_to!(vs@[i as int].1 => vs@[i as int].1->Tuple_0));
                VariantTy::Tuple(duplicate_list(ts))
            },
            VariantTy::Struct(fs) => {
                assert(decreases_to!(vs@[i as int].1 => vs@[i as int].1->Struct_0));
                VariantTy::Struct(duplicate_fields(fs))
            },
        };
        r.push((vs[i].0.clone(), v));
        i = i + 1;
    }
    r
}

} // verus!
