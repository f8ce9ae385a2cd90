//! SL002 — dead_code: a private function that nothing in the module calls.

use vstd::prelude::*;
use crate::ast::{
    Module, Item, FnDef, Block, Stmt, Expr, ExprKind, ImplItem, MatchArm, FieldInit, TemplatePart,
    Visibility,
};
use crate::lint::diag::{LintDiagnostic, LintSpan, Severity, to_lint_span};
use crate::text::{string_of, push_str, str_eq};

verus! {

broadcast use vstd::std_specs::vec::axiom_vec_index_decreases;

/// The names an expression calls directly (`name(...)`, by the first
/// segment of the callee's path), anywhere inside it.
pub open spec fn calls_e(e: Expr) -> Set<Seq<char>>
    decreases e,
{
    match e.kind {
        ExprKind::Call { callee, args } => (match callee.kind {
            ExprKind::Path(p) => if p.segments@.len() > 0 {
                set![p.segments@[0].name@]
            } else {
                Set::empty()
            },
            _ => Set::empty(),
        }) + calls_e(*callee) + calls_es(args@),
        ExprKind::MethodCall { receiver, args, .. } => calls_e(*receiver) + calls_es(args@),
        ExprKind::Binary { lhs, rhs, .. } => calls_e(*lhs) + calls_e(*rhs),
        ExprKind::Assign { target, rhs } => calls_e(*target) + calls_e(*rhs),
        ExprKind::CompoundAssign { target, rhs, .. } => calls_e(*target) + calls_e(*rhs),
        ExprKind::Index { base, index } => calls_e(*base) + calls_e(*index),
        ExprKind::Unary { expr, .. } => calls_e(*expr),
        ExprKind::Await(x) => calls_e(*x),
        ExprKind::Cast { expr, .. } => calls_e(*expr),
        ExprKind::Field { base, .. } => calls_e(*base),
        ExprKind::If { cond, then, else_ } => calls_e(*cond) + calls_b(then) + match else_ {
            Some(x) => calls_e(*x),
            None => Set::empty(),
        },
        ExprKind::While { cond, body } => calls_e(*cond) + calls_b(body),
        ExprKind::For { iter, body, .. } => calls_e(*iter) + calls_b(body),
        ExprKind::Loop(b) => calls_b(b),
        ExprKind::Match { scrutinee, arms } => calls_e(*scrutinee) + calls_arms(arms@),
        ExprKind::Return { value } => match value {
            Some(v) => calls_e(*v),
            None => Set::empty(),
        },
        ExprKind::Break { value } => match value {
            Some(v) => calls_e(*v),
            None => Set::empty(),
        },
        ExprKind::ArrayLit(es) => calls_es(es@),
        ExprKind::TupleLit(es) => calls_es(es@),
        ExprKind::ArrayRepeat { elem, len } => calls_e(*elem) + calls_e(*len),
        ExprKind::StructLit { fields, .. } => calls_fields(fields@),
        ExprKind::Closure { body, .. } => calls_e(*body),
        ExprKind::TemplateLit { parts } => calls_parts(parts@),
        ExprKind::Block(b) => calls_b(b),
        ExprKind::Range { start, end, .. } => (match start {
            Some(s) => calls_e(*s),
            None => Set::empty(),
        }) + match end {
            Some(x) => calls_e(*x),
            None => Set::empty(),
        },
        _ => Set::empty(),
    }
}

pub open spec fn calls_es(es: Seq<Expr>) -> Set<Seq<char>>
    decreases es,
{
    if es.len() == 0 {
        Set::empty()
    } else {
        calls_es(es.drop_last()) + calls_e(es.last())
    }
}

pub open spec fn calls_fields(fs: Seq<FieldInit>) -> Set<Seq<char>>
    decreases fs,
{
    if fs.len() == 0 {
        Set::empty()
    } else {
        calls_fields(fs.drop_last()) + match fs.last().value {
            Some(v) => calls_e(v),
            None => Set::empty(),
        }
    }
}

pub open spec fn calls_parts(ps: Seq<TemplatePart>) -> Set<Seq<char>>
    decreases ps,
{
    if ps.len() == 0 {
        Set::empty()
    } else {
        calls_parts(ps.drop_last()) + match ps.last() {
            TemplatePart::Expr(x) => calls_e(*x),
            TemplatePart::Str(_) => Set::empty(),
        }
    }
}

pub open spec fn calls_arms(arms: Seq<MatchArm>) -> Set<Seq<char>>
    decreases arms,
{
    if arms.len() == 0 {
        Set::empty()
    } else {
        calls_arms(arms.drop_last()) + (match arms.last().guard {
            Some(g) => calls_e(*g),
            None => Set::empty(),
        }) + calls_e(*arms.last().body)
    }
}

pub open spec fn calls_b(b: Block) -> Set<Seq<char>>
    decreases b,
{
    calls_stmts(b.stmts@) + match b.tail {
        Some(t) => calls_e(*t),
        None => Set::empty(),
    }
}

pub open spec fn calls_stmts(ss: Seq<Stmt>) -> Set<Seq<char>>
    decreases ss,
{
    if ss.len() == 0 {
        Set::empty()
    } else {
        calls_stmts(ss.drop_last()) + match ss.last() {
            Stmt::Let(l) => match l.init {
                Some(x) => calls_e(x),
                None => Set::empty(),
            },
            Stmt::Expr(x, _) => calls_e(x),
            Stmt::Item(_) => Set::empty(),
        }
    }
}

/// The names of a string list, as a set.
pub open spec fn name_set(v: Seq<String>) -> Set<Seq<char>> {
    v.map_values(|s: String| s@).to_set()
}

fn add_name(out: &mut Vec<String>, name: &String)
    ensures
        name_set(final(out)@) == name_set(old(out)@).insert(name@),
{
    let ghost before = out@;
    out.push(name.clone());
    proof {
        let a = before.map_values(|s: String| s@);
        let b = out@.map_values(|s: String| s@);
        assert(b =~= a.push(name@));
        assert(b.to_set() =~= a.to_set().insert(name@)) by {
            assert forall|x: Seq<char>| b.to_set().contains(x) <==> a.to_set().insert(name@).contains(x) by {
                if b.to_set().contains(x) {
                    let k = choose|k: int| 0 <= k < b.len() && b[k] == x;
                    if k < a.len() {
                        assert(a[k] == x);
                    }
                }
                if a.to_set().contains(x) {
                    let k = choose|k: int| 0 <= k < a.len() && a[k] == x;
                    assert(b[k] == x);
                }
                if x == name@ {
                    assert(b[a.len() as int] == x);
                }
            }
        }
    }
}

fn collect_calls_exprs(es: &Vec<Expr>, out: &mut Vec<String>)
    ensures
        name_set(final(out)@) == name_set(old(out)@) + calls_es(es@),
    decreases es, 0nat,
{
    let mut i: usize = 0;
    while i < es.len()
        invariant
            i <= es@.len(),
            name_set(out@) == name_set(old(out)@) + calls_es(es@.subrange(0, i as int)),
        decreases es.len() - i,
    {
        assert(decreases_to!(es => es@[i as int])) by {
            assert(decreases_to!(es => es@));
        }
        collect_calls_expr(&es[i], out);
        proof {
            let sub = es@.subrange(0, i + 1);
            assert(sub.drop_last() =~= es@.subrange(0, i as int));
            assert(name_set(out@) =~= name_set(old(out)@) + calls_es(sub));
        }
        i = i + 1;
    }
    assert(es@.subrange(0, i as int) =~= es@);
}

fn collect_calls_block(b: &Block, out: &mut Vec<String>)
    ensures
        name_set(final(out)@) == name_set(old(out)@) + calls_b(*b),
    decreases b, 0nat,
{
    let mut i: usize = 0;
    while i < b.stmts.len()
        invariant
            i <= b.stmts@.len(),
            name_set(out@) == name_set(old(out)@) + calls_stmts(b.stmts@.subrange(0, i as int)),
        decreases b.stmts.len() - i,
    {
        let ghost before = name_set(out@);
        assert(decreases_to!(b => b.stmts@[i as int])) by {
            assert(decreases_to!(b => b.stmts));
            assert(decreases_to!(b.stmts => b.stmts@));
        }
        match &b.stmts[i] {
            Stmt::Let(l) => {
                if let Some(init) = &l.init {
                    assert(decreases_to!(b.stmts@[i as int] => b.stmts@[i as int]->Let_0));
                    assert(decreases_to!(b.stmts@[i as int]->Let_0 => b.stmts@[i as int]->Let_0.init));
                    collect_calls_expr(init, out);
                }
            },
            Stmt::Expr(e, _) => collect_calls_expr(e, out),
            Stmt::Item(_) => {},
        }
        proof {
            let sub = b.stmts@.subrange(0, i + 1);
            assert(sub.drop_last() =~= b.stmts@.subrange(0, i as int));
            assert(name_set(out@) =~= name_set(old(out)@) + calls_stmts(sub));
        }
        i = i + 1;
    }
    assert(b.stmts@.subrange(0, i as int) =~= b.stmts@);
    let ghost mid = name_set(out@);
    if let Some(tail) = &b.tail {
        assert(decreases_to!(b => **tail)) by {
            assert(decreases_to!(b => b.tail));
        }
        collect_calls_expr(tail, out);
    }
    assert(name_set(out@) =~= name_set(old(out)@) + calls_b(*b));
}

/// Adds to `out` every name `e` calls directly.
fn collect_calls_expr(e: &Expr, out: &mut Vec<String>)
    ensures
        name_set(final(out)@) == name_set(old(out)@) + calls_e(*e),
    decreases e, 5nat,
{
    match &e.kind {
        ExprKind::Call { .. } | ExprKind::MethodCall { .. } | ExprKind::ArrayLit(_) | ExprKind::TupleLit(_)
        | ExprKind::StructLit { .. } | ExprKind::TemplateLit { .. } | ExprKind::Match { .. } => collect_calls_lists(e, out),
        _ => collect_calls_simple(e, out),
    }
}

fn collect_calls_simple(e: &Expr, out: &mut Vec<String>)
    requires
        !(e.kind is Call || e.kind is MethodCall || e.kind is ArrayLit || e.kind is TupleLit || e.kind is StructLit
            || e.kind is TemplateLit || e.kind is Match),
    ensures
        name_set(final(out)@) == name_set(old(out)@) + calls_e(*e),
    decreases e, 4nat,
{
    let ghost o = name_set(out@);
    assert(decreases_to!(e => e.kind));
    match &e.kind {
        ExprKind::Binary { lhs, rhs, .. } => {
            collect_calls_expr(lhs, out);
            collect_calls_expr(rhs, out);
        },
        ExprKind::Assign { target, rhs } => {
            collect_calls_expr(target, out);
            collect_calls_expr(rhs, out);
        },
        ExprKind::CompoundAssign { target, rhs, .. } => {
            collect_calls_expr(target, out);
            collect_calls_expr(rhs, out);
        },
        ExprKind::Index { base, index } => {
            collect_calls_expr(base, out);
            collect_calls_expr(index, out);
        },
        ExprKind::Unary { expr, .. } => collect_calls_expr(expr, out),
        ExprKind::Await(x) => collect_calls_expr(x, out),
        ExprKind::Cast { expr, .. } => collect_calls_expr(expr, out),
        ExprKind::Field { base, .. } => collect_calls_expr(base, out),
        ExprKind::If { cond, then, else_ } => {
            collect_calls_expr(cond, out);
            collect_calls_block(then, out);
            if let Some(el) = else_ {
                assert(decreases_to!(e.kind => e.kind->If_else_));
                collect_calls_expr(el, out);
            }
        },
        ExprKind::While { cond, body } => {
            collect_calls_expr(cond, out);
            collect_calls_block(body, out);
        },
        ExprKind::For { iter, body, .. } => {
            collect_calls_expr(iter, out);
            collect_calls_block(body, out);
        },
        ExprKind::Loop(b) => collect_calls_block(b, out),
        ExprKind::Return { value } => {
            if let Some(v) = value {
                assert(decreases_to!(e.kind => e.kind->Return_value));
                collect_calls_expr(v, out);
            }
        },
        ExprKind::Break { value } => {
            if let Some(v) = value {
                assert(decreases_to!(e.kind => e.kind->Break_value));
                collect_calls_expr(v, out);
            }
        },
        ExprKind::ArrayRepeat { elem, len } => {
            collect_calls_expr(elem, out);
            collect_calls_expr(len, out);
        },
        ExprKind::Closure { body, .. } => collect_calls_expr(body, out),
        ExprKind::Block(b) => collect_calls_block(b, out),
        ExprKind::Range { start, end, .. } => {
            if let Some(s) = start {
                assert(decreases_to!(e.kind => e.kind->Range_start));
                collect_calls_expr(s, out);
            }
            if let Some(x) = end {
                assert(decreases_to!(e.kind => e.kind->Range_end));
                collect_calls_expr(x, out);
            }
        },
        _ => {},
    }
    assert(name_set(out@) =~= o + calls_e(*e));
}

fn collect_calls_lists(e: &Expr, out: &mut Vec<String>)
    requires
        e.kind is Call || e.kind is MethodCall || e.kind is ArrayLit || e.kind is TupleLit || e.kind is StructLit
            || e.kind is TemplateLit || e.kind is Match,
    ensures
        name_set(final(out)@) == name_set(old(out)@) + calls_e(*e),
    decreases e, 4nat,
{
    let ghost o = name_set(out@);
    assert(decreases_to!(e => e.kind));
    match &e.kind {
        ExprKind::Call { callee, args } => {
            if let ExprKind::Path(p) = &callee.kind {
                if p.segments.len() > 0 {
                    add_name(out, &p.segments[0].name);
                }
            }
            collect_calls_expr(callee, out);
            assert(decreases_to!(e.kind => e.kind->Call_args));
            collect_calls_exprs(args, out);
        },
        ExprKind::MethodCall { receiver, args, .. } => {
            collect_calls_expr(receiver, out);
            assert(decreases_to!(e.kind => e.kind->MethodCall_args));
            collect_calls_exprs(args, out);
        },
        ExprKind::ArrayLit(es) => {
            assert(decreases_to!(e.kind => e.kind->ArrayLit_0));
            collect_calls_exprs(es, out);
        },
        ExprKind::TupleLit(es) => {
            assert(decreases_to!(e.kind => e.kind->TupleLit_0));
            collect_calls_exprs(es, out);
        },
        ExprKind::StructLit { fields, .. } => {
            let mut i: usize = 0;
            while i < fields.len()
                invariant
                    e.kind is StructLit,
                    *fields == e.kind->StructLit_fields,
                    i <= fields@.len(),
                    name_set(out@) == o + calls_fields(fields@.subrange(0, i as int)),
                decreases fields.len() - i,
            {
                if let Some(v) = &fields[i].value {
                    assert(decreases_to!(e => *v)) by {
                        assert(decreases_to!(e => e.kind));
                        assert(decreases_to!(e.kind => e.kind->StructLit_fields));
                        assert(decreases_to!(e.kind->StructLit_fields => e.kind->StructLit_fields@));
                        assert(decreases_to!(e.kind->StructLit_fields@ => e.kind->StructLit_fields@[i as int]));
                        assert(decreases_to!(e.kind->StructLit_fields@[i as int] => e.kind->StructLit_fields@[i as int].value));
                    }
                    collect_calls_expr(v, out);
                }
                proof {
                    let sub = fields@.subrange(0, i + 1);
                    assert(sub.drop_last() =~= fields@.subrange(0, i as int));
                    assert(name_set(out@) =~= o + calls_fields(sub));
                }
                i = i + 1;
            }
            assert(fields@.subrange(0, i as int) =~= fields@);
        },
        ExprKind::TemplateLit { parts } => {
            let mut i: usize = 0;
            while i < parts.len()
                invariant
                    e.kind is TemplateLit,
                    *parts == e.kind->TemplateLit_parts,
                    i <= parts@.len(),
                    name_set(out@) == o + calls_parts(parts@.subrange(0, i as int)),
                decreases parts.len() - i,
            {
                if let TemplatePart::Expr(x) = &parts[i] {
                    assert(decreases_to!(e => **x)) by {
                        assert(decreases_to!(e => e.kind));
                        assert(decreases_to!(e.kind => e.kind->TemplateLit_parts));
                        assert(decreases_to!(e.kind->TemplateLit_parts => e.kind->TemplateLit_parts@));
                        assert(decreases_to!(e.kind->TemplateLit_parts@ => e.kind->TemplateLit_parts@[i as int]));
                    }
                    collect_calls_expr(x, out);
                }
                proof {
                    let sub = parts@.subrange(0, i + 1);
                    assert(sub.drop_last() =~= parts@.subrange(0, i as int));
                    assert(name_set(out@) =~= o + calls_parts(sub));
                }
                i = i + 1;
            }
            assert(parts@.subrange(0, i as int) =~= parts@);
        },
        ExprKind::Match { scrutinee, arms } => {
            collect_calls_expr(scrutinee, out);
            let ghost o2 = name_set(out@);
            let mut i: usize = 0;
            while i < arms.len()
                invariant
                    e.kind is Match,
                    *arms == e.kind->Match_arms,
                    i <= arms@.len(),
                    name_set(out@) == o2 + calls_arms(arms@.subrange(0, i as int)),
                decreases arms.len() - i,
            {
                let arm = &arms[i];
                assert(decreases_to!(e => *arm)) by {
                    assert(decreases_to!(e => e.kind));
                    assert(decreases_to!(e.kind => e.kind->Match_arms));
                    assert(decreases_to!(e.kind->Match_arms => e.kind->Match_arms@));
                }
                if let Some(g) = &arm.guard {
                    assert(decreases_to!(*arm => arm.guard));
                    collect_calls_expr(g, out);
                }
                collect_calls_expr(&arm.body, out);
                proof {
                    let sub = arms@.subrange(0, i + 1);
                    assert(sub.drop_last() =~= arms@.subrange(0, i as int));
                    assert(name_set(out@) =~= o2 + calls_arms(sub));
                }
                i = i + 1;
            }
            assert(arms@.subrange(0, i as int) =~= arms@);
        },
        _ => {},
    }
    assert(name_set(out@) =~= o + calls_e(*e));
}

/// The names the item calls directly.
pub open spec fn calls_item(item: Item) -> Set<Seq<char>> {
    match item {
        Item::FnDef(f) => calls_b(f.body),
        Item::Const(c) => calls_e(c.value),
        Item::ImplBlock(imp) => impl_calls(imp.items@),
        _ => Set::empty(),
    }
}

pub open spec fn impl_calls(items: Seq<ImplItem>) -> Set<Seq<char>>
    decreases items.len(),
{
    if items.len() == 0 {
        Set::empty()
    } else {
        impl_calls(items.drop_last()) + match items.last() {
            ImplItem::Fn(f) => calls_b(f.body),
            _ => Set::empty(),
        }
    }
}

pub open spec fn module_calls(items: Seq<Item>, n: int) -> Set<Seq<char>>
    decreases n,
{
    if n <= 0 {
        Set::empty()
    } else {
        module_calls(items, n - 1) + calls_item(items[n - 1])
    }
}

fn collect_calls_item(item: &Item, out: &mut Vec<String>)
    ensures
        name_set(final(out)@) == name_set(old(out)@) + calls_item(*item),
{
    let ghost o = name_set(out@);
    match item {
        Item::FnDef(f) => collect_calls_block(&f.body, out),
        Item::Const(c) => collect_calls_expr(&c.value, out),
        Item::ImplBlock(imp) => {
            let mut i: usize = 0;
            while i < imp.items.len()
                invariant
                    i <= imp.items@.len(),
                    name_set(out@) == o + impl_calls(imp.items@.subrange(0, i as int)),
                decreases imp.items.len() - i,
            {
                if let ImplItem::Fn(f) = &imp.items[i] {
                    collect_calls_block(&f.body, out);
                }
                proof {
                    let sub = imp.items@.subrange(0, i + 1);
                    assert(sub.drop_last() =~= imp.items@.subrange(0, i as int));
                    assert(name_set(out@) =~= o + impl_calls(sub));
                }
                i = i + 1;
            }
            assert(imp.items@.subrange(0, i as int) =~= imp.items@);
        },
        _ => {},
    }
    assert(name_set(out@) =~= o + calls_item(*item));
}

/// A function the rule looks at: private, and neither `main` nor a test.
pub open spec fn candidate(f: FnDef) -> bool {
    &&& f.vis == Visibility::Private
    &&& f.name@ != "main"@
    &&& !exists|k: int| 0 <= k < f.attrs@.len() && (#[trigger] f.attrs@[k]).name@ == "test"@
}

fn is_candidate(f: &FnDef) -> (b: bool)
    ensures
        b == candidate(*f),
{
    if f.vis != Visibility::Private || str_eq(f.name.as_str(), "main") {
        return false;
    }
    let mut k: usize = 0;
    while k < f.attrs.len()
        invariant
            k <= f.attrs@.len(),
            forall|j: int| 0 <= j < k ==> (#[trigger] f.attrs@[j]).name@ != "test"@,
        decreases f.attrs.len() - k,
    {
        if str_eq(f.attrs[k].name.as_str(), "test") {
            return false;
        }
        k = k + 1;
    }
    true
}

fn contains_name(v: &Vec<String>, name: &str) -> (b: bool)
    ensures
        b == name_set(v@).contains(name@),
{
    let ghost vs = v@.map_values(|s: String| s@);
    let mut i: usize = 0;
    while i < v.len()
        invariant
            vs == v@.map_values(|s: String| s@),
            i <= v@.len(),
            forall|j: int| 0 <= j < i ==> vs[j] != name@,
        decreases v.len() - i,
    {
        if str_eq(v[i].as_str(), name) {
            assert(vs[i as int] == name@);
            return true;
        }
        i = i + 1;
    }
    false
}

/// The candidate functions among `items` whose names are not in `called`,
/// in order.
pub open spec fn dead_fns(items: Seq<Item>, called: Set<Seq<char>>) -> Seq<FnDef>
    decreases items.len(),
{
    if items.len() == 0 {
        seq![]
    } else {
        dead_fns(items.drop_last(), called) + match items.last() {
            Item::FnDef(f) => if candidate(f) && !called.contains(f.name@) {
                seq![f]
            } else {
                Seq::<FnDef>::empty()
            },
            _ => Seq::<FnDef>::empty(),
        }
    }
}

/// `d` reports function `f` as never called.
pub open spec fn dead_report(d: LintDiagnostic, f: FnDef) -> bool {
    &&& d.code@ == "SL002"@
    &&& d.name@ == "dead_code"@
    &&& d.severity == Severity::Warning
    &&& d.message@ == "function `"@ + f.name@ + "` is never called"@
    &&& d.fix matches Some(x) && x@ == "add `export` to expose `"@ + f.name@ + "`, or delete it"@
    &&& d.span.start == f.span.start as u32
    &&& d.span.end == f.span.end as u32
}

/// Reports each candidate function (private, not `main`, not a test)
/// whose name no item of the module calls, in order.
pub fn check(src: &str, module: &Module, out: &mut Vec<LintDiagnostic>)
    ensures
        old(out)@.is_prefix_of(final(out)@),
        forall|k: int| old(out)@.len() <= k < final(out)@.len() ==> (#[trigger] final(out)@[k]).code@ == "SL002"@,
        final(out)@.len() == old(out)@.len() + dead_fns(module.items@, module_calls(module.items@, module.items@.len() as int)).len(),
        forall|k: int|
            0 <= k < dead_fns(module.items@, module_calls(module.items@, module.items@.len() as int)).len() ==> dead_report(
                #[trigger] final(out)@[old(out)@.len() + k],
                dead_fns(module.items@, module_calls(module.items@, module.items@.len() as int))[k],
            ),
{
    let mut called: Vec<String> = Vec::new();
    let mut i: usize = 0;
    while i < module.items.len()
        invariant
            i <= module.items@.len(),
            name_set(called@) == module_calls(module.items@, i as int),
        decreases module.items.len() - i,
    {
        collect_calls_item(&module.items[i], &mut called);
        i = i + 1;
    }
    let ghost start = out@;
    let ghost cs = module_calls(module.items@, module.items@.len() as int);
    let mut j: usize = 0;
    while j < module.items.len()
        invariant
            j <= module.items@.len(),
            start == old(out)@,
            cs == name_set(called@),
            start.len() <= out@.len(),
            out@.subrange(0, start.len() as int) == start,
            forall|k: int| start.len() <= k < out@.len() ==> (#[trigger] out@[k]).code@ == "SL002"@,
            out@.len() == start.len() + dead_fns(module.items@.subrange(0, j as int), cs).len(),
            forall|k: int|
                0 <= k < dead_fns(module.items@.subrange(0, j as int), cs).len() ==> dead_report(
                    #[trigger] out@[start.len() + k],
                    dead_fns(module.items@.subrange(0, j as int), cs)[k],
                ),
        decreases module.items.len() - j,
    {
        let ghost before = out@;
        let ghost prev = dead_fns(module.items@.subrange(0, j as int), cs);
        proof {
            let sub = module.items@.subrange(0, j + 1);
            assert(sub.drop_last() =~= module.items@.subrange(0, j as int));
            assert(sub.last() == module.items@[j as int]);
        }
        if let Item::FnDef(f) = &module.items[j] {
            if is_candidate(f) && !contains_name(&called, f.name.as_str()) {
                let mut message = string_of("function `");
                push_str(&mut message, f.name.as_str());
                push_str(&mut message, "` is never called");
                let mut fix = string_of("add `export` to expose `");
                push_str(&mut fix, f.name.as_str());
                push_str(&mut fix, "`, or delete it");
                out.push(LintDiagnostic {
                    code: "SL002",
                    name: "dead_code",
                    severity: Severity::Warning,
                    message,
                    span: to_lint_span(src, f.span),
                    fix: Some(fix),
                });
                assert(out@.subrange(0, start.len() as int) =~= before.subrange(0, start.len() as int));
                proof {
                    let sub = module.items@.subrange(0, j + 1);
                    assert(dead_fns(sub, cs) == prev.push(*f));
                    assert forall|k: int| 0 <= k < dead_fns(sub, cs).len() implies dead_report(
                        #[trigger] out@[start.len() + k],
                        dead_fns(sub, cs)[k],
                    ) by {
                        if k < prev.len() {
                            assert(out@[start.len() + k] == before[start.len() + k]);
                        }
                    }
                }
            }
        }
        j = j + 1;
    }
    assert(module.items@.subrange(0, j as int) =~= module.items@);
    assert(old(out)@ =~= out@.subrange(0, old(out)@.len() as int));
}

} // verus!
