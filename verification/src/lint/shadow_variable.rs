//! SL004 — shadow_variable: a `let` binding that reuses an outer name.

use vstd::prelude::*;
use crate::ast::{Module, Item, FnDef, Block, Stmt, Expr, ExprKind, Pattern, PatternKind};
use crate::lint::diag::{LintDiagnostic, LintSpan, Severity, to_lint_span};
use crate::text::{string_of, push_str, str_eq};
use crate::token::Span;

verus! {

broadcast use vstd::std_specs::vec::axiom_vec_index_decreases;

/// The message of a shadowing report for `n`.
pub open spec fn shadow_message(n: Seq<char>) -> Seq<char> {
    "`"@ + n + "` shadows an outer binding"@
}

/// `d` is a shadowing report.
pub open spec fn shadow_report(d: LintDiagnostic) -> bool {
    &&& d.code@ == "SL004"@
    &&& d.name@ == "shadow_variable"@
    &&& d.severity == Severity::Warning
    &&& d.fix matches Some(x) && x@ == "rename this binding"@
    &&& exists|n: Seq<char>| #[trigger] shadow_message(n) == d.message@
}

/// Diagnostics were only appended, all shadowing reports.
pub open spec fn appended(old: Seq<LintDiagnostic>, new: Seq<LintDiagnostic>) -> bool {
    &&& old.len() <= new.len()
    &&& forall|k: int| 0 <= k < old.len() ==> #[trigger] new[k] == old[k]
    &&& forall|k: int| old.len() <= k < new.len() ==> (#[trigger] new[k]).code@ == "SL004"@
    &&& forall|k: int| old.len() <= k < new.len() ==> shadow_report(#[trigger] new[k])
}

/// Names as text.
pub open spec fn names_of(v: Seq<String>) -> Seq<Seq<char>> {
    v.map_values(|x: String| x@)
}

/// The names a pattern introduces, in order (every alternative of an
/// or-pattern included).
pub open spec fn pat_names(p: Pattern) -> Seq<Seq<char>>
    decreases p, 0nat,
{
    match p.kind {
        PatternKind::Ident { name, .. } => seq![name@],
        PatternKind::Tuple(elems) => pats_names(elems@),
        PatternKind::Array(elems) => pats_names(elems@),
        PatternKind::TupleStruct { elems, .. } => pats_names(elems@),
        PatternKind::Struct { fields, .. } => field_pats_names(fields@),
        PatternKind::Or(pats) => pats_names(pats@),
        _ => seq![],
    }
}

pub open spec fn pats_names(ps: Seq<Pattern>) -> Seq<Seq<char>>
    decreases ps, 0nat,
{
    if ps.len() == 0 {
        seq![]
    } else {
        pats_names(ps.drop_last()) + pat_names(ps.last())
    }
}

pub open spec fn field_pats_names(fs: Seq<crate::ast::FieldPat>) -> Seq<Seq<char>>
    decreases fs, 0nat,
{
    if fs.len() == 0 {
        seq![]
    } else {
        field_pats_names(fs.drop_last()) + match fs.last().pat {
            Some(p) => pat_names(p),
            None => Seq::<Seq<char>>::empty(),
        }
    }
}

fn contains(v: &Vec<String>, name: &str) -> (b: bool)
    ensures
        b == names_of(v@).contains(name@),
{
    let mut i: usize = 0;
    while i < v.len()
        invariant
            i <= v@.len(),
            forall|j: int| 0 <= j < i ==> v@[j]@ != name@,
        decreases v.len() - i,
    {
        if str_eq(v[i].as_str(), name) {
            assert(names_of(v@)[i as int] == name@);
            return true;
        }
        i = i + 1;
    }
    assert(!names_of(v@).contains(name@)) by {
        if names_of(v@).contains(name@) {
            let j = choose|j: int| 0 <= j < names_of(v@).len() && names_of(v@)[j] == name@;
            assert(v@[j]@ == name@);
        }
    }
    false
}

fn copy_names(v: &Vec<String>) -> (r: Vec<String>)
    ensures
        names_of(r@) == names_of(v@),
{
    let mut r: Vec<String> = Vec::new();
    let mut i: usize = 0;
    while i < v.len()
        invariant
            i <= v@.len(),
            names_of(r@) == names_of(v@.subrange(0, i as int)),
        decreases v.len() - i,
    {
        let ghost before = r@;
        r.push(string_of(v[i].as_str()));
        assert(names_of(r@) =~= names_of(before).push(v@[i as int]@));
        assert(names_of(v@.subrange(0, i + 1)) =~= names_of(v@.subrange(0, i as int)).push(v@[i as int]@));
        i = i + 1;
    }
    assert(v@.subrange(0, i as int) =~= v@);
    r
}

/// The names a pattern introduces, in order.
fn collect_names(pat: &Pattern, out: &mut Vec<String>)
    ensures
        names_of(final(out)@) == names_of(old(out)@) + pat_names(*pat),
    decreases pat,
{
    let ghost o = names_of(out@);
    match &pat.kind {
        PatternKind::Ident { name, .. } => {
            out.push(name.clone());
            assert(names_of(out@) =~= o + pat_names(*pat));
        },
        PatternKind::Tuple(elems) | PatternKind::Array(elems) | PatternKind::TupleStruct { elems, .. } => {
            let mut i: usize = 0;
            assert(names_of(out@) =~= o + pats_names(elems@.subrange(0, 0)));
            while i < elems.len()
                invariant
                    decreases_to!(*pat => *elems),
                    i <= elems@.len(),
                    names_of(out@) == o + pats_names(elems@.subrange(0, i as int)),
                decreases elems.len() - i,
            {
                assert(decreases_to!(*pat => elems@[i as int])) by {
                    assert(decreases_to!(*elems => elems@));
                }
                collect_names(&elems[i], out);
                proof {
                    let sub = elems@.subrange(0, i + 1);
                    assert(sub.drop_last() =~= elems@.subrange(0, i as int));
                    assert(sub.last() == elems@[i as int]);
                    assert(names_of(out@) =~= o + pats_names(sub));
                }
                i = i + 1;
            }
            assert(elems@.subrange(0, i as int) =~= elems@);
        },
        PatternKind::Struct { fields, .. } => {
            let mut i: usize = 0;
            assert(names_of(out@) =~= o + field_pats_names(fields@.subrange(0, 0)));
            while i < fields.len()
                invariant
                    decreases_to!(*pat => *fields),
                    i <= fields@.len(),
                    names_of(out@) == o + field_pats_names(fields@.subrange(0, i as int)),
                decreases fields.len() - i,
            {
                let ghost b = names_of(out@);
                if let Some(p) = &fields[i].pat {
                    assert(decreases_to!(*pat => *p)) by {
                        assert(decreases_to!(*fields => fields@));
                        assert(decreases_to!(fields@ => fields@[i as int]));
                        assert(decreases_to!(fields@[i as int] => fields@[i as int].pat));
                    }
                    collect_names(p, out);
                }
                proof {
                    let sub = fields@.subrange(0, i + 1);
                    assert(sub.drop_last() =~= fields@.subrange(0, i as int));
                    assert(sub.last() == fields@[i as int]);
                    assert(names_of(out@) =~= o + field_pats_names(sub));
                }
                i = i + 1;
            }
            assert(fields@.subrange(0, i as int) =~= fields@);
        },
        PatternKind::Or(pats) => {
            let mut i: usize = 0;
            assert(names_of(out@) =~= o + pats_names(pats@.subrange(0, 0)));
            while i < pats.len()
                invariant
                    decreases_to!(*pat => *pats),
                    i <= pats@.len(),
                    names_of(out@) == o + pats_names(pats@.subrange(0, i as int)),
                decreases pats.len() - i,
            {
                assert(decreases_to!(*pat => pats@[i as int])) by {
                    assert(decreases_to!(*pats => pats@));
                }
                collect_names(&pats[i], out);
                proof {
                    let sub = pats@.subrange(0, i + 1);
                    assert(sub.drop_last() =~= pats@.subrange(0, i as int));
                    assert(sub.last() == pats@[i as int]);
                    assert(names_of(out@) =~= o + pats_names(sub));
                }
                i = i + 1;
            }
            assert(pats@.subrange(0, i as int) =~= pats@);
        },
        _ => {
            assert(names_of(out@) =~= o + pat_names(*pat));
        },
    }
}

/// What a shadowing report is about: the name, and the `let` it is in.
pub open spec fn let_reports(names: Seq<Seq<char>>, scope: Seq<Seq<char>>, span: Span) -> Seq<(Seq<char>, Span)>
    decreases names.len(),
{
    if names.len() == 0 {
        seq![]
    } else {
        let_reports(names.drop_last(), scope, span) + if (scope + names.drop_last()).contains(names.last()) {
            seq![(names.last(), span)]
        } else {
            Seq::<(Seq<char>, Span)>::empty()
        }
    }
}

/// The names in scope after the statements `ss`, starting from `scope`.
pub open spec fn scope_after(ss: Seq<Stmt>, scope: Seq<Seq<char>>) -> Seq<Seq<char>>
    decreases ss.len(),
{
    if ss.len() == 0 {
        scope
    } else {
        scope_after(ss.drop_last(), scope) + match ss.last() {
            Stmt::Let(b) => pat_names(b.pattern),
            _ => Seq::<Seq<char>>::empty(),
        }
    }
}

/// The shadowing reports of a block whose outer names are `outer`.
pub open spec fn block_reports(b: Block, outer: Seq<Seq<char>>) -> Seq<(Seq<char>, Span)>
    decreases b, 0nat,
{
    stmts_reports(b.stmts@, outer) + tail_reports(b.tail, scope_after(b.stmts@, outer))
}

/// The reports of a block's tail, if it has one.
pub open spec fn tail_reports(t: Option<Box<Expr>>, scope: Seq<Seq<char>>) -> Seq<(Seq<char>, Span)>
    decreases t, 0nat,
{
    match t {
        Some(x) => nested_reports(*x, scope),
        None => Seq::<(Seq<char>, Span)>::empty(),
    }
}

pub open spec fn stmts_reports(ss: Seq<Stmt>, outer: Seq<Seq<char>>) -> Seq<(Seq<char>, Span)>
    decreases ss, 0nat,
{
    if ss.len() == 0 {
        seq![]
    } else {
        stmts_reports(ss.drop_last(), outer) + stmt_reports(ss.last(), scope_after(ss.drop_last(), outer))
    }
}

pub open spec fn stmt_reports(st: Stmt, scope: Seq<Seq<char>>) -> Seq<(Seq<char>, Span)>
    decreases st, 0nat,
{
    match st {
        Stmt::Let(b) => let_reports(pat_names(b.pattern), scope, b.span),
        Stmt::Expr(e, _) => nested_reports(e, scope),
        Stmt::Item(_) => seq![],
    }
}

/// The reports of the blocks nested in control flow.
pub open spec fn nested_reports(e: Expr, scope: Seq<Seq<char>>) -> Seq<(Seq<char>, Span)>
    decreases e, 0nat,
{
    match e.kind {
        ExprKind::If { then, else_, .. } => block_reports(then, scope) + tail_reports(else_, scope),
        ExprKind::While { body, .. } => block_reports(body, scope),
        ExprKind::For { body, .. } => block_reports(body, scope),
        ExprKind::Loop(body) => block_reports(body, scope),
        ExprKind::Block(b) => block_reports(b, scope),
        ExprKind::Match { arms, .. } => arms_reports(arms@, scope),
        _ => seq![],
    }
}

pub open spec fn arms_reports(arms: Seq<crate::ast::MatchArm>, scope: Seq<Seq<char>>) -> Seq<(Seq<char>, Span)>
    decreases arms, 0nat,
{
    if arms.len() == 0 {
        seq![]
    } else {
        arms_reports(arms.drop_last(), scope) + nested_reports(*arms.last().body, scope)
    }
}

/// `d` reports that `r.0` shadows an outer binding, at the `let` spanning `r.1`.
pub open spec fn shadow_diag(d: LintDiagnostic, r: (Seq<char>, Span)) -> bool {
    &&& shadow_report(d)
    &&& d.message@ == shadow_message(r.0)
    &&& d.span.start == r.1.start as u32
    &&& d.span.end == r.1.end as u32
}

/// `new` is `old` followed by one report for each of `rs`, in order.
pub open spec fn reports_added(old: Seq<LintDiagnostic>, new: Seq<LintDiagnostic>, rs: Seq<(Seq<char>, Span)>) -> bool {
    &&& new.len() == old.len() + rs.len()
    &&& forall|k: int| 0 <= k < old.len() ==> #[trigger] new[k] == old[k]
    &&& forall|k: int| 0 <= k < rs.len() ==> shadow_diag(#[trigger] new[old.len() + k], rs[k])
}

proof fn lemma_added_chain(a: Seq<LintDiagnostic>, b: Seq<LintDiagnostic>, c: Seq<LintDiagnostic>, r1: Seq<(Seq<char>, Span)>, r2: Seq<(Seq<char>, Span)>)
    requires
        reports_added(a, b, r1),
        reports_added(b, c, r2),
    ensures
        reports_added(a, c, r1 + r2),
{
    assert forall|k: int| 0 <= k < (r1 + r2).len() implies shadow_diag(#[trigger] c[a.len() + k], (r1 + r2)[k]) by {
        if k < r1.len() {
            assert(c[a.len() + k] == b[a.len() + k]);
        } else {
            assert(c[b.len() + (k - r1.len())] == c[a.len() + k]);
        }
    }
}

proof fn lemma_added_none(a: Seq<LintDiagnostic>)
    ensures
        reports_added(a, a, Seq::<(Seq<char>, Span)>::empty()),
{
}

proof fn lemma_added_appended(a: Seq<LintDiagnostic>, b: Seq<LintDiagnostic>, rs: Seq<(Seq<char>, Span)>)
    requires
        reports_added(a, b, rs),
    ensures
        appended(a, b),
{
    assert forall|k: int| a.len() <= k < b.len() implies shadow_report(#[trigger] b[k]) by {
        assert(shadow_diag(b[a.len() + (k - a.len())], rs[k - a.len()]));
    }
}

fn check_block(src: &str, b: &Block, outer: &Vec<String>, out: &mut Vec<LintDiagnostic>)
    ensures
        appended(old(out)@, final(out)@),
        reports_added(old(out)@, final(out)@, block_reports(*b, names_of(outer@))),
    decreases b, 0nat,
{
    let ghost on = names_of(outer@);
    let mut scope = copy_names(outer);
    let mut i: usize = 0;
    proof {
        lemma_added_none(out@);
        assert(stmts_reports(b.stmts@.subrange(0, 0), on) =~= Seq::<(Seq<char>, Span)>::empty());
        assert(scope_after(b.stmts@.subrange(0, 0), on) == on);
    }
    while i < b.stmts.len()
        invariant
            i <= b.stmts@.len(),
            on == names_of(outer@),
            names_of(scope@) == scope_after(b.stmts@.subrange(0, i as int), on),
            reports_added(old(out)@, out@, stmts_reports(b.stmts@.subrange(0, i as int), on)),
        decreases b.stmts.len() - i,
    {
        assert(decreases_to!(b => b.stmts@[i as int])) by {
            assert(decreases_to!(b => b.stmts));
            assert(decreases_to!(b.stmts => b.stmts@));
        }
        let ghost sub = b.stmts@.subrange(0, i + 1);
        let ghost pre = b.stmts@.subrange(0, i as int);
        proof {
            assert(sub.drop_last() =~= pre);
            assert(sub.last() == b.stmts@[i as int]);
        }
        let ghost out0 = out@;
        let ghost sc0 = names_of(scope@);
        match &b.stmts[i] {
            Stmt::Let(bind) => {
                let mut names: Vec<String> = Vec::new();
                collect_names(&bind.pattern, &mut names);
                let ghost pn = pat_names(bind.pattern);
                assert(names_of(names@) =~= pn);
                let mut k: usize = 0;
                proof {
                    lemma_added_none(out@);
                    assert(pn.subrange(0, 0) =~= Seq::<Seq<char>>::empty());
                    assert(sc0 + pn.subrange(0, 0) =~= sc0);
                }
                while k < names.len()
                    invariant
                        k <= names@.len(),
                        names_of(names@) == pn,
                        names_of(scope@) == sc0 + pn.subrange(0, k as int),
                        reports_added(out0, out@, let_reports(pn.subrange(0, k as int), sc0, bind.span)),
                    decreases names.len() - k,
                {
                    let name = &names[k];
                    assert(name@ == pn[k as int]);
                    let ghost before = out@;
                    let ghost ps = pn.subrange(0, k + 1);
                    assert(ps.drop_last() =~= pn.subrange(0, k as int));
                    assert(ps.last() == pn[k as int]);
                    if contains(&scope, name.as_str()) {
                        let mut message = string_of("`");
                        push_str(&mut message, name.as_str());
                        push_str(&mut message, "` shadows an outer binding");
                        out.push(LintDiagnostic {
                            code: "SL004",
                            name: "shadow_variable",
                            severity: Severity::Warning,
                            message,
                            span: to_lint_span(src, bind.span),
                            fix: Some(string_of("rename this binding")),
                        });
                        assert(shadow_message(name@) == out@.last().message@);
                        proof {
                            let r1 = let_reports(pn.subrange(0, k as int), sc0, bind.span);
                            assert(reports_added(before, out@, seq![(pn[k as int], bind.span)])) by {
                                assert(out@[before.len() as int] == out@.last());
                            }
                            lemma_added_chain(out0, before, out@, r1, seq![(pn[k as int], bind.span)]);
                            assert(let_reports(ps, sc0, bind.span) == r1 + seq![(pn[k as int], bind.span)]);
                        }
                    } else {
                        proof {
                            assert(let_reports(ps, sc0, bind.span) =~= let_reports(pn.subrange(0, k as int), sc0, bind.span));
                        }
                    }
                    let ghost sb = scope@;
                    scope.push(string_of(name.as_str()));
                    assert(names_of(scope@) =~= names_of(sb).push(name@));
                    assert(sc0 + ps =~= (sc0 + pn.subrange(0, k as int)).push(pn[k as int]));
                    k = k + 1;
                }
                proof {
                    assert(pn.subrange(0, k as int) =~= pn);
                    lemma_added_chain(old(out)@, out0, out@, stmts_reports(pre, on), stmt_reports(b.stmts@[i as int], scope_after(pre, on)));
                }
            },
            Stmt::Expr(e, _) => {
                check_nested(src, e, &scope, out);
                proof {
                    lemma_added_chain(old(out)@, out0, out@, stmts_reports(pre, on), stmt_reports(b.stmts@[i as int], scope_after(pre, on)));
                    assert(scope_after(sub, on) =~= scope_after(pre, on));
                }
            },
            Stmt::Item(_) => {
                proof {
                    lemma_added_none(out@);
                    lemma_added_chain(old(out)@, out0, out@, stmts_reports(pre, on), stmt_reports(b.stmts@[i as int], scope_after(pre, on)));
                    assert(scope_after(sub, on) =~= scope_after(pre, on));
                }
            },
        }
        i = i + 1;
    }
    assert(b.stmts@.subrange(0, i as int) =~= b.stmts@);
    let ghost out1 = out@;
    if let Some(tail) = &b.tail {
        assert(decreases_to!(b => **tail)) by {
            assert(decreases_to!(b => b.tail));
        }
        check_nested(src, tail, &scope, out);
    } else {
        proof {
            lemma_added_none(out@);
        }
    }
    proof {
        let tr = tail_reports(b.tail, scope_after(b.stmts@, on));
        lemma_added_chain(old(out)@, out1, out@, stmts_reports(b.stmts@, on), tr);
        lemma_added_appended(old(out)@, out@, block_reports(*b, on));
    }
}

/// Checks the blocks nested in control flow, with `scope` as their outer
/// names.
fn check_nested(src: &str, e: &Expr, scope: &Vec<String>, out: &mut Vec<LintDiagnostic>)
    ensures
        appended(old(out)@, final(out)@),
        reports_added(old(out)@, final(out)@, nested_reports(*e, names_of(scope@))),
    decreases e, 0nat,
{
    let ghost sc = names_of(scope@);
    assert(decreases_to!(e => e.kind));
    match &e.kind {
        ExprKind::If { then, else_, .. } => {
            check_block(src, then, scope, out);
            let ghost mid = out@;
            if let Some(el) = else_ {
                assert(decreases_to!(e.kind => e.kind->If_else_));
                check_nested(src, el, scope, out);
            } else {
                proof {
                    lemma_added_none(out@);
                }
            }
            proof {
                let er = tail_reports(*else_, sc);
                lemma_added_chain(old(out)@, mid, out@, block_reports(*then, sc), er);
            }
        },
        ExprKind::While { body, .. } => check_block(src, body, scope, out),
        ExprKind::For { body, .. } => check_block(src, body, scope, out),
        ExprKind::Loop(body) => check_block(src, body, scope, out),
        ExprKind::Block(b) => check_block(src, b, scope, out),
        ExprKind::Match { arms, .. } => {
            let mut i: usize = 0;
            proof {
                lemma_added_none(out@);
                assert(arms_reports(arms@.subrange(0, 0), sc) =~= Seq::<(Seq<char>, Span)>::empty());
            }
            while i < arms.len()
                invariant
                    decreases_to!(e.kind => *arms),
                    i <= arms@.len(),
                    sc == names_of(scope@),
                    reports_added(old(out)@, out@, arms_reports(arms@.subrange(0, i as int), sc)),
                decreases arms.len() - i,
            {
                assert(decreases_to!(e.kind => *arms@[i as int].body)) by {
                    assert(decreases_to!(*arms => arms@));
                    assert(decreases_to!(arms@ => arms@[i as int]));
                    assert(decreases_to!(arms@[i as int] => arms@[i as int].body));
                }
                let ghost before = out@;
                check_nested(src, &arms[i].body, scope, out);
                proof {
                    let sub = arms@.subrange(0, i + 1);
                    assert(sub.drop_last() =~= arms@.subrange(0, i as int));
                    assert(sub.last() == arms@[i as int]);
                    lemma_added_chain(old(out)@, before, out@, arms_reports(arms@.subrange(0, i as int), sc), nested_reports(*arms@[i as int].body, sc));
                }
                i = i + 1;
            }
            assert(arms@.subrange(0, i as int) =~= arms@);
        },
        _ => {
            proof {
                lemma_added_none(out@);
            }
        },
    }
    proof {
        lemma_added_appended(old(out)@, out@, nested_reports(*e, sc));
    }
}

/// The names of a function's parameters.
pub open spec fn param_names(ps: Seq<crate::ast::Param>) -> Seq<Seq<char>> {
    ps.map_values(|p: crate::ast::Param| p.name@)
}

fn check_fn(src: &str, f: &FnDef, out: &mut Vec<LintDiagnostic>)
    ensures
        appended(old(out)@, final(out)@),
        reports_added(old(out)@, final(out)@, block_reports(f.body, param_names(f.params@))),
{
    let mut outer: Vec<String> = Vec::new();
    let mut i: usize = 0;
    while i < f.params.len()
        invariant
            i <= f.params@.len(),
            names_of(outer@) == param_names(f.params@.subrange(0, i as int)),
        decreases f.params.len() - i,
    {
        let ghost b = outer@;
        outer.push(string_of(f.params[i].name.as_str()));
        assert(names_of(outer@) =~= names_of(b).push(f.params@[i as int].name@));
        assert(param_names(f.params@.subrange(0, i + 1)) =~= param_names(f.params@.subrange(0, i as int)).push(f.params@[i as int].name@));
        i = i + 1;
    }
    assert(f.params@.subrange(0, i as int) =~= f.params@);
    check_block(src, &f.body, &outer, out);
}

/// The shadowing reports of the functions among `items`, in order.
pub open spec fn module_reports(items: Seq<Item>) -> Seq<(Seq<char>, Span)>
    decreases items.len(),
{
    if items.len() == 0 {
        seq![]
    } else {
        module_reports(items.drop_last()) + item_reports(items.last())
    }
}

pub open spec fn item_reports(it: Item) -> Seq<(Seq<char>, Span)> {
    match it {
        Item::FnDef(f) => block_reports(f.body, param_names(f.params@)),
        _ => Seq::<(Seq<char>, Span)>::empty(),
    }
}

/// Reports every `let` name that shadows a name already in scope: one
/// report per shadowing name, in order, each at its `let`.
pub fn check(src: &str, module: &Module, out: &mut Vec<LintDiagnostic>)
    ensures
        appended(old(out)@, final(out)@),
        reports_added(old(out)@, final(out)@, module_reports(module.items@)),
{
    let mut i: usize = 0;
    proof {
        lemma_added_none(out@);
        assert(module_reports(module.items@.subrange(0, 0)) =~= Seq::<(Seq<char>, Span)>::empty());
    }
    while i < module.items.len()
        invariant
            i <= module.items@.len(),
            reports_added(old(out)@, out@, module_reports(module.items@.subrange(0, i as int))),
        decreases module.items.len() - i,
    {
        let ghost before = out@;
        let ghost sub = module.items@.subrange(0, i + 1);
        proof {
            assert(sub.drop_last() =~= module.items@.subrange(0, i as int));
            assert(sub.last() == module.items@[i as int]);
        }
        if let Item::FnDef(f) = &module.items[i] {
            check_fn(src, f, out);
        } else {
            proof {
                lemma_added_none(out@);
            }
        }
        proof {
            let r2 = item_reports(module.items@[i as int]);
            lemma_added_chain(old(out)@, before, out@, module_reports(module.items@.subrange(0, i as int)), r2);
        }
        i = i + 1;
    }
    assert(module.items@.subrange(0, i as int) =~= module.items@);
    proof {
        lemma_added_appended(old(out)@, out@, module_reports(module.items@));
    }
}

} // verus!
