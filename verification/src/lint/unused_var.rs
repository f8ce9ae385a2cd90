//! SL001 — unused_variable: a `let` binding never read in its function.
//! Names starting with `_` are exempt; parameters count as used.

use vstd::prelude::*;
use crate::ast::{Module, Item, FnDef, Block, Stmt, Expr, ExprKind, Pattern, PatternKind, TemplatePart};
use crate::lint::diag::{LintDiagnostic, LintSpan, Severity, to_lint_span};
use crate::token::Span;
use crate::text::{string_of, push_str, str_eq, starts_with, has_prefix};
use crate::lint::shadow_variable::{pat_names, pats_names, field_pats_names};

pub use crate::lint::diag::offset_to_line_col;

verus! {

broadcast use vstd::std_specs::vec::axiom_vec_index_decreases;

/// A binding: its name, where it was declared, and how often it is read.
type Uses = Vec<(String, Span, usize)>;

/// Only the counts change.
pub open spec fn same_names(a: Seq<(String, Span, usize)>, b: Seq<(String, Span, usize)>) -> bool {
    &&& a.len() == b.len()
    &&& forall|i: int| 0 <= i < a.len() ==> (#[trigger] b[i]).0 == a[i].0 && b[i].1 == a[i].1
}

/// A binding table as plain values.
pub open spec fn uses_view(b: Seq<(String, Span, usize)>) -> Seq<(Seq<char>, Span, usize)> {
    b.map_values(|e: (String, Span, usize)| (e.0@, e.1, e.2))
}

/// The first entry named `name`.
pub open spec fn first_pos(st: Seq<(Seq<char>, Span, usize)>, name: Seq<char>) -> Option<int>
    decreases st.len(),
{
    if st.len() == 0 {
        None
    } else if st[0].0 == name {
        Some(0)
    } else {
        match first_pos(st.drop_first(), name) {
            Some(i) => Some(i + 1),
            None => None,
        }
    }
}

proof fn lemma_first_pos(st: Seq<(Seq<char>, Span, usize)>, name: Seq<char>, i: int)
    requires
        0 <= i <= st.len(),
        forall|j: int| 0 <= j < i ==> (#[trigger] st[j]).0 != name,
    ensures
        i < st.len() && st[i].0 == name ==> first_pos(st, name) == Some(i),
        i == st.len() ==> first_pos(st, name) is None,
    decreases i,
{
    if i > 0 {
        let t = st.drop_first();
        assert forall|j: int| 0 <= j < i - 1 implies (#[trigger] t[j]).0 != name by {
            assert(t[j] == st[j + 1]);
        }
        lemma_first_pos(t, name, i - 1);
        if i < st.len() {
            assert(t[i - 1] == st[i]);
        }
    } else if st.len() > 0 {
    }
}

proof fn lemma_first_pos_in(st: Seq<(Seq<char>, Span, usize)>, name: Seq<char>)
    ensures
        first_pos(st, name) matches Some(i) ==> 0 <= i < st.len() && st[i].0 == name,
    decreases st.len(),
{
    if st.len() > 0 && st[0].0 != name {
        lemma_first_pos_in(st.drop_first(), name);
    }
}

/// One more read of `name`, if it is known (the count saturates).
pub open spec fn use_spec(st: Seq<(Seq<char>, Span, usize)>, name: Seq<char>) -> Seq<(Seq<char>, Span, usize)> {
    match first_pos(st, name) {
        Some(i) => if st[i].2 < usize::MAX {
            st.update(i, (st[i].0, st[i].1, (st[i].2 + 1) as usize))
        } else {
            st
        },
        None => st,
    }
}

/// `name` declared at `span`, unread, unless already known.
pub open spec fn declare_spec(st: Seq<(Seq<char>, Span, usize)>, name: Seq<char>, span: Span) -> Seq<(Seq<char>, Span, usize)> {
    if first_pos(st, name) is None {
        st.push((name, span, 0usize))
    } else {
        st
    }
}

/// Each of `names` declared at `span`, in order.
pub open spec fn declare_all(st: Seq<(Seq<char>, Span, usize)>, names: Seq<Seq<char>>, span: Span) -> Seq<(Seq<char>, Span, usize)>
    decreases names.len(),
{
    if names.len() == 0 {
        st
    } else {
        declare_spec(declare_all(st, names.drop_last(), span), names.last(), span)
    }
}

fn position(b: &Uses, name: &str) -> (r: Option<usize>)
    ensures
        r matches Some(i) ==> i < b@.len() && b@[i as int].0@ == name@,
        match r {
            Some(i) => first_pos(uses_view(b@), name@) == Some(i as int),
            None => first_pos(uses_view(b@), name@) is None,
        },
{
    let ghost v = uses_view(b@);
    let mut i: usize = 0;
    while i < b.len()
        invariant
            v == uses_view(b@),
            i <= b@.len(),
            forall|j: int| 0 <= j < i ==> (#[trigger] v[j]).0 != name@,
        decreases b.len() - i,
    {
        if str_eq(b[i].0.as_str(), name) {
            proof {
                lemma_first_pos(v, name@, i as int);
            }
            return Some(i);
        }
        i = i + 1;
    }
    proof {
        lemma_first_pos(v, name@, i as int);
    }
    None
}

/// `name` declared at `span`, unless already known.
fn declare_once(b: &mut Uses, name: &String, span: Span)
    ensures
        uses_view(final(b)@) == declare_spec(uses_view(old(b)@), name@, span),
{
    if position(b, name.as_str()).is_none() {
        b.push((string_of(name.as_str()), span, 0));
        assert(uses_view(b@) =~= uses_view(old(b)@).push((name@, span, 0usize)));
    }
}

fn count_use(b: &mut Uses, name: &str)
    ensures
        same_names(old(b)@, final(b)@),
        uses_view(final(b)@) == use_spec(uses_view(old(b)@), name@),
{
    let ghost v = uses_view(b@);
    if let Some(i) = position(b, name) {
        assert(first_pos(v, name@) == Some(i as int));
        assert(v[i as int] == (b@[i as int].0@, b@[i as int].1, b@[i as int].2));
        let c = b[i].2;
        if c < usize::MAX {
            b[i].2 = c + 1;
            assert(uses_view(b@) =~= v.update(i as int, (v[i as int].0, v[i as int].1, (c + 1) as usize)));
        }
    } else {
        assert(first_pos(v, name@) is None);
    }
}

proof fn lemma_declare_all_concat(st: Seq<(Seq<char>, Span, usize)>, a: Seq<Seq<char>>, b: Seq<Seq<char>>, span: Span)
    ensures
        declare_all(st, a + b, span) == declare_all(declare_all(st, a, span), b, span),
    decreases b.len(),
{
    if b.len() == 0 {
        assert(a + b =~= a);
    } else {
        assert((a + b).drop_last() =~= a + b.drop_last());
        assert((a + b).last() == b.last());
        lemma_declare_all_concat(st, a, b.drop_last(), span);
    }
}

/// Registers every name a pattern introduces, unread.
fn collect_pat_names(pat: &Pattern, span: Span, b: &mut Uses)
    ensures
        uses_view(final(b)@) == declare_all(uses_view(old(b)@), pat_names(*pat), span),
    decreases pat,
{
    let ghost o = uses_view(b@);
    match &pat.kind {
        PatternKind::Ident { name, .. } => {
            declare_once(b, name, span);
            assert(declare_all(o, pat_names(*pat), span) == declare_spec(declare_all(o, Seq::<Seq<char>>::empty(), span), name@, span)) by {
                assert(pat_names(*pat).drop_last() =~= Seq::<Seq<char>>::empty());
            }
        },
        PatternKind::Tuple(elems) | PatternKind::Array(elems) | PatternKind::TupleStruct { elems, .. } => {
            let mut i: usize = 0;
            assert(pats_names(elems@.subrange(0, 0)) =~= Seq::<Seq<char>>::empty());
            while i < elems.len()
                invariant
                    decreases_to!(*pat => *elems),
                    i <= elems@.len(),
                    uses_view(b@) == declare_all(o, pats_names(elems@.subrange(0, i as int)), span),
                decreases elems.len() - i,
            {
                assert(decreases_to!(*pat => elems@[i as int])) by {
                    assert(decreases_to!(*elems => elems@));
                }
                collect_pat_names(&elems[i], span, b);
                proof {
                    let sub = elems@.subrange(0, i + 1);
                    assert(sub.drop_last() =~= elems@.subrange(0, i as int));
                    assert(sub.last() == elems@[i as int]);
                    lemma_declare_all_concat(o, pats_names(elems@.subrange(0, i as int)), pat_names(elems@[i as int]), span);
                }
                i = i + 1;
            }
            assert(elems@.subrange(0, i as int) =~= elems@);
        },
        PatternKind::Struct { fields, .. } => {
            let mut i: usize = 0;
            assert(field_pats_names(fields@.subrange(0, 0)) =~= Seq::<Seq<char>>::empty());
            while i < fields.len()
                invariant
                    decreases_to!(*pat => *fields),
                    i <= fields@.len(),
                    uses_view(b@) == declare_all(o, field_pats_names(fields@.subrange(0, i as int)), span),
                decreases fields.len() - i,
            {
                let ghost pre = field_pats_names(fields@.subrange(0, i as int));
                proof {
                    let sub = fields@.subrange(0, i + 1);
                    assert(sub.drop_last() =~= fields@.subrange(0, i as int));
                    assert(sub.last() == fields@[i as int]);
                }
                if let Some(p) = &fields[i].pat {
                    assert(decreases_to!(*pat => *p)) by {
                        assert(decreases_to!(*fields => fields@));
                        assert(decreases_to!(fields@ => fields@[i as int]));
                        assert(decreases_to!(fields@[i as int] => fields@[i as int].pat));
                    }
                    collect_pat_names(p, span, b);
                    proof {
                        lemma_declare_all_concat(o, pre, pat_names(*p), span);
                    }
                } else {
                    assert(pre + Seq::<Seq<char>>::empty() =~= pre);
                }
                i = i + 1;
            }
            assert(fields@.subrange(0, i as int) =~= fields@);
        },
        PatternKind::Or(pats) => {
            let mut i: usize = 0;
            assert(pats_names(pats@.subrange(0, 0)) =~= Seq::<Seq<char>>::empty());
            while i < pats.len()
                invariant
                    decreases_to!(*pat => *pats),
                    i <= pats@.len(),
                    uses_view(b@) == declare_all(o, pats_names(pats@.subrange(0, i as int)), span),
                decreases pats.len() - i,
            {
                assert(decreases_to!(*pat => pats@[i as int])) by {
                    assert(decreases_to!(*pats => pats@));
                }
                collect_pat_names(&pats[i], span, b);
                proof {
                    let sub = pats@.subrange(0, i + 1);
                    assert(sub.drop_last() =~= pats@.subrange(0, i as int));
                    assert(sub.last() == pats@[i as int]);
                    lemma_declare_all_concat(o, pats_names(pats@.subrange(0, i as int)), pat_names(pats@[i as int]), span);
                }
                i = i + 1;
            }
            assert(pats@.subrange(0, i as int) =~= pats@);
        },
        _ => {},
    }
}

/// The reads of known names in `e`, counted into `st`.
pub open spec fn uses_expr(e: Expr, st: Seq<(Seq<char>, Span, usize)>) -> Seq<(Seq<char>, Span, usize)>
    decreases e, 0nat,
{
    match e.kind {
        ExprKind::Path(p) => if p.segments@.len() > 0 {
            use_spec(st, p.segments@[0].name@)
        } else {
            st
        },
        ExprKind::Call { callee, args } => uses_exprs(args@, uses_expr(*callee, st)),
        ExprKind::MethodCall { receiver, args, .. } => uses_exprs(args@, uses_expr(*receiver, st)),
        ExprKind::ArrayLit(es) => uses_exprs(es@, st),
        ExprKind::TupleLit(es) => uses_exprs(es@, st),
        ExprKind::StructLit { fields, .. } => uses_fields(fields@, st),
        ExprKind::TemplateLit { parts } => uses_parts(parts@, st),
        ExprKind::Match { scrutinee, arms } => uses_arms(arms@, uses_expr(*scrutinee, st)),
        ExprKind::Unary { expr, .. } => uses_expr(*expr, st),
        ExprKind::Await(x) => uses_expr(*x, st),
        ExprKind::Cast { expr, .. } => uses_expr(*expr, st),
        ExprKind::Binary { lhs, rhs, .. } => uses_expr(*rhs, uses_expr(*lhs, st)),
        ExprKind::Assign { target, rhs } => uses_expr(*rhs, uses_expr(*target, st)),
        ExprKind::CompoundAssign { target, rhs, .. } => uses_expr(*rhs, uses_expr(*target, st)),
        ExprKind::Index { base, index } => uses_expr(*index, uses_expr(*base, st)),
        ExprKind::If { cond, then, else_ } => opt_uses(else_, uses_block(then, uses_expr(*cond, st))),
        ExprKind::While { cond, body } => uses_block(body, uses_expr(*cond, st)),
        ExprKind::For { iter, body, .. } => uses_block(body, uses_expr(*iter, st)),
        ExprKind::Loop(body) => uses_block(body, st),
        ExprKind::Return { value } => opt_uses(value, st),
        ExprKind::Break { value } => opt_uses(value, st),
        ExprKind::Field { base, .. } => uses_expr(*base, st),
        ExprKind::ArrayRepeat { elem, len } => uses_expr(*len, uses_expr(*elem, st)),
        ExprKind::Closure { body, .. } => uses_expr(*body, st),
        ExprKind::Block(bl) => uses_block(bl, st),
        ExprKind::Range { start, end, .. } => opt_uses(end, opt_uses(start, st)),
        _ => st,
    }
}

pub open spec fn opt_uses(x: Option<Box<Expr>>, st: Seq<(Seq<char>, Span, usize)>) -> Seq<(Seq<char>, Span, usize)>
    decreases x, 0nat,
{
    match x {
        Some(v) => uses_expr(*v, st),
        None => st,
    }
}

pub open spec fn uses_exprs(es: Seq<Expr>, st: Seq<(Seq<char>, Span, usize)>) -> Seq<(Seq<char>, Span, usize)>
    decreases es, 0nat,
{
    if es.len() == 0 {
        st
    } else {
        uses_expr(es.last(), uses_exprs(es.drop_last(), st))
    }
}

pub open spec fn uses_fields(fs: Seq<crate::ast::FieldInit>, st: Seq<(Seq<char>, Span, usize)>) -> Seq<(Seq<char>, Span, usize)>
    decreases fs, 0nat,
{
    if fs.len() == 0 {
        st
    } else {
        match fs.last().value {
            Some(v) => uses_expr(v, uses_fields(fs.drop_last(), st)),
            None => uses_fields(fs.drop_last(), st),
        }
    }
}

pub open spec fn uses_parts(ps: Seq<TemplatePart>, st: Seq<(Seq<char>, Span, usize)>) -> Seq<(Seq<char>, Span, usize)>
    decreases ps, 0nat,
{
    if ps.len() == 0 {
        st
    } else {
        match ps.last() {
            TemplatePart::Expr(x) => uses_expr(*x, uses_parts(ps.drop_last(), st)),
            TemplatePart::Str(_) => uses_parts(ps.drop_last(), st),
        }
    }
}

pub open spec fn uses_arms(arms: Seq<crate::ast::MatchArm>, st: Seq<(Seq<char>, Span, usize)>) -> Seq<(Seq<char>, Span, usize)>
    decreases arms, 0nat,
{
    if arms.len() == 0 {
        st
    } else {
        uses_expr(*arms.last().body, opt_uses(arms.last().guard, uses_arms(arms.drop_last(), st)))
    }
}

/// The reads in a block, and its `let` names declared as they come.
pub open spec fn uses_block(b: Block, st: Seq<(Seq<char>, Span, usize)>) -> Seq<(Seq<char>, Span, usize)>
    decreases b, 0nat,
{
    opt_uses(b.tail, uses_stmts(b.stmts@, st))
}

pub open spec fn uses_stmts(ss: Seq<Stmt>, st: Seq<(Seq<char>, Span, usize)>) -> Seq<(Seq<char>, Span, usize)>
    decreases ss, 0nat,
{
    if ss.len() == 0 {
        st
    } else {
        uses_stmt(ss.last(), uses_stmts(ss.drop_last(), st))
    }
}

pub open spec fn uses_stmt(s: Stmt, st: Seq<(Seq<char>, Span, usize)>) -> Seq<(Seq<char>, Span, usize)>
    decreases s, 0nat,
{
    match s {
        Stmt::Let(l) => declare_all(
            match l.init {
                Some(x) => uses_expr(x, st),
                None => st,
            },
            pat_names(l.pattern),
            l.span,
        ),
        Stmt::Expr(e, _) => uses_expr(e, st),
        Stmt::Item(_) => st,
    }
}

fn count_opt(x: &Option<Box<Expr>>, b: &mut Uses)
    ensures
        uses_view(final(b)@) == opt_uses(*x, uses_view(old(b)@)),
    decreases x, 0nat,
{
    if let Some(v) = x {
        count_expr(v, b);
    }
}

fn count_block(block: &Block, b: &mut Uses)
    ensures
        uses_view(final(b)@) == uses_block(*block, uses_view(old(b)@)),
    decreases block, 0nat,
{
    let ghost o = uses_view(b@);
    let mut i: usize = 0;
    assert(block.stmts@.subrange(0, 0) =~= Seq::<Stmt>::empty());
    while i < block.stmts.len()
        invariant
            i <= block.stmts@.len(),
            uses_view(b@) == uses_stmts(block.stmts@.subrange(0, i as int), o),
        decreases block.stmts.len() - i,
    {
        assert(decreases_to!(block => block.stmts@[i as int])) by {
            assert(decreases_to!(block => block.stmts));
            assert(decreases_to!(block.stmts => block.stmts@));
        }
        let ghost sub = block.stmts@.subrange(0, i + 1);
        let ghost st0 = uses_view(b@);
        proof {
            assert(sub.drop_last() =~= block.stmts@.subrange(0, i as int));
            assert(sub.last() == block.stmts@[i as int]);
            assert(uses_stmts(sub, o) == uses_stmt(block.stmts@[i as int], st0));
        }
        match &block.stmts[i] {
            Stmt::Let(l) => {
                let ghost prev = uses_view(b@);
                if let Some(init) = &l.init {
                    assert(decreases_to!(block.stmts@[i as int] => block.stmts@[i as int]->Let_0));
                    assert(decreases_to!(block.stmts@[i as int]->Let_0 => block.stmts@[i as int]->Let_0.init));
                    count_expr(init, b);
                }
                assert(uses_view(b@) == match l.init {
                    Some(x) => uses_expr(x, prev),
                    None => prev,
                });
                collect_pat_names(&l.pattern, l.span, b);
                assert(uses_view(b@) == uses_stmt(block.stmts@[i as int], prev));
            },
            Stmt::Expr(e, _) => count_expr(e, b),
            Stmt::Item(_) => {},
        }
        assert(uses_view(b@) == uses_stmt(block.stmts@[i as int], st0));
        i = i + 1;
    }
    assert(block.stmts@.subrange(0, i as int) =~= block.stmts@);
    assert(decreases_to!(block => block.tail));
    count_opt(&block.tail, b);
}

fn count_exprs(es: &Vec<Expr>, b: &mut Uses)
    ensures
        uses_view(final(b)@) == uses_exprs(es@, uses_view(old(b)@)),
    decreases es, 0nat,
{
    let ghost o = uses_view(b@);
    let mut i: usize = 0;
    assert(es@.subrange(0, 0) =~= Seq::<Expr>::empty());
    while i < es.len()
        invariant
            i <= es@.len(),
            uses_view(b@) == uses_exprs(es@.subrange(0, i as int), o),
        decreases es.len() - i,
    {
        assert(decreases_to!(es => es@[i as int])) by {
            assert(decreases_to!(es => es@));
        }
        count_expr(&es[i], b);
        proof {
            let sub = es@.subrange(0, i + 1);
            assert(sub.drop_last() =~= es@.subrange(0, i as int));
            assert(sub.last() == es@[i as int]);
        }
        i = i + 1;
    }
    assert(es@.subrange(0, i as int) =~= es@);
}

/// Counts the reads of known names in `e`.
fn count_expr(e: &Expr, b: &mut Uses)
    ensures
        uses_view(final(b)@) == uses_expr(*e, uses_view(old(b)@)),
    decreases e, 5nat,
{
    match &e.kind {
        ExprKind::Path(p) => {
            if p.segments.len() > 0 {
                count_use(b, p.segments[0].name.as_str());
            }
        },
        ExprKind::Call { .. } | ExprKind::MethodCall { .. } | ExprKind::ArrayLit(_) | ExprKind::TupleLit(_)
        | ExprKind::StructLit { .. } | ExprKind::TemplateLit { .. } | ExprKind::Match { .. } => count_lists(e, b),
        _ => count_simple(e, b),
    }
}

#[verifier::rlimit(100)]
fn count_simple(e: &Expr, b: &mut Uses)
    requires
        !(e.kind is Path || e.kind is Call || e.kind is MethodCall || e.kind is ArrayLit || e.kind is TupleLit
            || e.kind is StructLit || e.kind is TemplateLit || e.kind is Match),
    ensures
        uses_view(final(b)@) == uses_expr(*e, uses_view(old(b)@)),
    decreases e, 4nat,
{
    assert(decreases_to!(e => e.kind));
    match &e.kind {
        ExprKind::Unary { expr, .. } => count_expr(expr, b),
        ExprKind::Await(x) => count_expr(x, b),
        ExprKind::Cast { expr, .. } => count_expr(expr, b),
        ExprKind::Binary { lhs, rhs, .. } => {
            count_expr(lhs, b);
            count_expr(rhs, b);
        },
        ExprKind::Assign { target, rhs } => {
            count_expr(target, b);
            count_expr(rhs, b);
        },
        ExprKind::CompoundAssign { target, rhs, .. } => {
            count_expr(target, b);
            count_expr(rhs, b);
        },
        ExprKind::Index { base, index } => {
            count_expr(base, b);
            count_expr(index, b);
        },
        ExprKind::If { cond, then, else_ } => {
            count_expr(cond, b);
            count_block(then, b);
            assert(decreases_to!(e.kind => e.kind->If_else_));
            count_opt(else_, b);
        },
        ExprKind::While { cond, body } => {
            count_expr(cond, b);
            count_block(body, b);
        },
        ExprKind::For { iter, body, .. } => {
            count_expr(iter, b);
            count_block(body, b);
        },
        ExprKind::Loop(body) => count_block(body, b),
        ExprKind::Return { value } => {
            assert(decreases_to!(e.kind => e.kind->Return_value));
            count_opt(value, b);
        },
        ExprKind::Break { value } => {
            assert(decreases_to!(e.kind => e.kind->Break_value));
            count_opt(value, b);
        },
        ExprKind::Field { base, .. } => count_expr(base, b),
        ExprKind::ArrayRepeat { elem, len } => {
            count_expr(elem, b);
            count_expr(len, b);
        },
        ExprKind::Closure { body, .. } => count_expr(body, b),
        ExprKind::Block(bl) => count_block(bl, b),
        ExprKind::Range { start, end, .. } => {
            assert(decreases_to!(e.kind => e.kind->Range_start));
            count_opt(start, b);
            assert(decreases_to!(e.kind => e.kind->Range_end));
            count_opt(end, b);
        },
        _ => {},
    }
}

#[verifier::rlimit(100)]
fn count_lists(e: &Expr, b: &mut Uses)
    requires
        e.kind is Call || e.kind is MethodCall || e.kind is ArrayLit || e.kind is TupleLit || e.kind is StructLit
            || e.kind is TemplateLit || e.kind is Match,
    ensures
        uses_view(final(b)@) == uses_expr(*e, uses_view(old(b)@)),
    decreases e, 4nat,
{
    let ghost o = uses_view(b@);
    assert(decreases_to!(e => e.kind));
    match &e.kind {
        ExprKind::Call { callee, args } => {
            count_expr(callee, b);
            assert(decreases_to!(e.kind => e.kind->Call_args));
            count_exprs(args, b);
        },
        ExprKind::MethodCall { receiver, args, .. } => {
            count_expr(receiver, b);
            assert(decreases_to!(e.kind => e.kind->MethodCall_args));
            count_exprs(args, b);
        },
        ExprKind::ArrayLit(es) => {
            assert(decreases_to!(e.kind => e.kind->ArrayLit_0));
            count_exprs(es, b);
        },
        ExprKind::TupleLit(es) => {
            assert(decreases_to!(e.kind => e.kind->TupleLit_0));
            count_exprs(es, b);
        },
        ExprKind::StructLit { fields, .. } => {
            let mut i: usize = 0;
            assert(fields@.subrange(0, 0) =~= Seq::<crate::ast::FieldInit>::empty());
            while i < fields.len()
                invariant
                    decreases_to!(e => *fields),
                    i <= fields@.len(),
                    uses_view(b@) == uses_fields(fields@.subrange(0, i as int), o),
                decreases fields.len() - i,
            {
                proof {
                    let sub = fields@.subrange(0, i + 1);
                    assert(sub.drop_last() =~= fields@.subrange(0, i as int));
                    assert(sub.last() == fields@[i as int]);
                }
                if let Some(v) = &fields[i].value {
                    assert(decreases_to!(e => *v)) by {
                        assert(decreases_to!(*fields => fields@));
                        assert(decreases_to!(fields@ => fields@[i as int]));
                        assert(decreases_to!(fields@[i as int] => fields@[i as int].value));
                    }
                    count_expr(v, b);
                }
                i = i + 1;
            }
            assert(fields@.subrange(0, i as int) =~= fields@);
        },
        ExprKind::TemplateLit { parts } => {
            let mut i: usize = 0;
            assert(parts@.subrange(0, 0) =~= Seq::<TemplatePart>::empty());
            while i < parts.len()
                invariant
                    decreases_to!(e => *parts),
                    i <= parts@.len(),
                    uses_view(b@) == uses_parts(parts@.subrange(0, i as int), o),
                decreases parts.len() - i,
            {
                proof {
                    let sub = parts@.subrange(0, i + 1);
                    assert(sub.drop_last() =~= parts@.subrange(0, i as int));
                    assert(sub.last() == parts@[i as int]);
                }
                if let TemplatePart::Expr(x) = &parts[i] {
                    assert(decreases_to!(e => **x)) by {
                        assert(decreases_to!(*parts => parts@));
                        assert(decreases_to!(parts@ => parts@[i as int]));
                    }
                    count_expr(x, b);
                }
                i = i + 1;
            }
            assert(parts@.subrange(0, i as int) =~= parts@);
        },
        ExprKind::Match { scrutinee, arms } => {
            count_expr(scrutinee, b);
            let ghost o2 = uses_view(b@);
            let mut i: usize = 0;
            assert(arms@.subrange(0, 0) =~= Seq::<crate::ast::MatchArm>::empty());
            while i < arms.len()
                invariant
                    decreases_to!(e => *arms),
                    i <= arms@.len(),
                    uses_view(b@) == uses_arms(arms@.subrange(0, i as int), o2),
                decreases arms.len() - i,
            {
                let arm = &arms[i];
                assert(decreases_to!(e => *arm)) by {
                    assert(decreases_to!(*arms => arms@));
                }
                proof {
                    let sub = arms@.subrange(0, i + 1);
                    assert(sub.drop_last() =~= arms@.subrange(0, i as int));
                    assert(sub.last() == arms@[i as int]);
                }
                assert(decreases_to!(*arm => arm.guard));
                count_opt(&arm.guard, b);
                count_expr(&arm.body, b);
                i = i + 1;
            }
            assert(arms@.subrange(0, i as int) =~= arms@);
        },
        _ => {},
    }
}

/// The message of an unused-variable report for `n`.
pub open spec fn unused_message(n: Seq<char>) -> Seq<char> {
    "variable `"@ + n + "` is declared but never used \u{2014} prefix with `_` to silence"@
}

/// `d` reports an unread binding whose name does not start with `_`.
pub open spec fn is_unused_report(d: LintDiagnostic) -> bool {
    &&& d.code@ == "SL001"@
    &&& d.severity == Severity::Warning
    &&& exists|n: Seq<char>| !has_prefix(n, "_"@) && #[trigger] unused_message(n) == d.message@
}

/// The table a function starts with: its parameters, counted as read.
pub open spec fn params_init(ps: Seq<crate::ast::Param>) -> Seq<(Seq<char>, Span, usize)>
    decreases ps.len(),
{
    if ps.len() == 0 {
        seq![]
    } else {
        let st = params_init(ps.drop_last());
        let p = ps.last();
        match first_pos(st, p.name@) {
            Some(k) => st.update(k, (p.name@, p.span, 1usize)),
            None => st.push((p.name@, p.span, 1usize)),
        }
    }
}

/// The unread bindings of `st` whose names do not start with `_`, in order.
pub open spec fn unused_entries(st: Seq<(Seq<char>, Span, usize)>) -> Seq<(Seq<char>, Span)>
    decreases st.len(),
{
    if st.len() == 0 {
        seq![]
    } else {
        unused_entries(st.drop_last()) + if st.last().2 == 0 && !has_prefix(st.last().0, "_"@) {
            seq![(st.last().0, st.last().1)]
        } else {
            Seq::<(Seq<char>, Span)>::empty()
        }
    }
}

/// What a function reports: its unread `let` bindings.
pub open spec fn fn_unused(f: FnDef) -> Seq<(Seq<char>, Span)> {
    unused_entries(uses_block(f.body, params_init(f.params@)))
}

/// `d` reports that binding `r.0`, declared at `r.1`, is never read.
pub open spec fn unused_diag(d: LintDiagnostic, r: (Seq<char>, Span)) -> bool {
    &&& is_unused_report(d)
    &&& d.name@ == "unused_variable"@
    &&& d.message@ == unused_message(r.0)
    &&& d.fix matches Some(x) && x@ == "rename to `_"@ + r.0 + "`"@
    &&& d.span.start == r.1.start as u32
    &&& d.span.end == r.1.end as u32
}

/// `new` is `old` followed by one report for each of `rs`, in order.
pub open spec fn unused_added(old: Seq<LintDiagnostic>, new: Seq<LintDiagnostic>, rs: Seq<(Seq<char>, Span)>) -> bool {
    &&& new.len() == old.len() + rs.len()
    &&& forall|k: int| 0 <= k < old.len() ==> #[trigger] new[k] == old[k]
    &&& forall|k: int| 0 <= k < rs.len() ==> unused_diag(#[trigger] new[old.len() + k], rs[k])
}

proof fn lemma_unused_chain(a: Seq<LintDiagnostic>, b: Seq<LintDiagnostic>, c: Seq<LintDiagnostic>, r1: Seq<(Seq<char>, Span)>, r2: Seq<(Seq<char>, Span)>)
    requires
        unused_added(a, b, r1),
        unused_added(b, c, r2),
    ensures
        unused_added(a, c, r1 + r2),
{
    assert forall|k: int| 0 <= k < (r1 + r2).len() implies unused_diag(#[trigger] c[a.len() + k], (r1 + r2)[k]) by {
        if k < r1.len() {
            assert(c[a.len() + k] == b[a.len() + k]);
        } else {
            assert(c[b.len() + (k - r1.len())] == c[a.len() + k]);
        }
    }
}

proof fn lemma_unused_props(a: Seq<LintDiagnostic>, b: Seq<LintDiagnostic>, rs: Seq<(Seq<char>, Span)>)
    requires
        unused_added(a, b, rs),
    ensures
        a.is_prefix_of(b),
        forall|k: int| a.len() <= k < b.len() ==> (#[trigger] b[k]).code@ == "SL001"@,
        forall|k: int| a.len() <= k < b.len() ==> is_unused_report(#[trigger] b[k]),
{
    assert(b.subrange(0, a.len() as int) =~= a);
    assert forall|k: int| a.len() <= k < b.len() implies is_unused_report(#[trigger] b[k]) by {
        assert(unused_diag(b[a.len() + (k - a.len())], rs[k - a.len()]));
    }
}

fn check_fn(src: &str, f: &FnDef, out: &mut Vec<LintDiagnostic>)
    ensures
        old(out)@.is_prefix_of(final(out)@),
        forall|k: int| old(out)@.len() <= k < final(out)@.len() ==> (#[trigger] final(out)@[k]).code@ == "SL001"@,
        forall|k: int| old(out)@.len() <= k < final(out)@.len() ==> is_unused_report(#[trigger] final(out)@[k]),
        unused_added(old(out)@, final(out)@, fn_unused(*f)),
{
    let mut bindings: Uses = Vec::new();
    // Parameters count as used.
    let mut i: usize = 0;
    assert(uses_view(bindings@) =~= params_init(f.params@.subrange(0, 0)));
    while i < f.params.len()
        invariant
            i <= f.params@.len(),
            uses_view(bindings@) == params_init(f.params@.subrange(0, i as int)),
        decreases f.params.len() - i,
    {
        let p = &f.params[i];
        let ghost st = uses_view(bindings@);
        proof {
            let sub = f.params@.subrange(0, i + 1);
            assert(sub.drop_last() =~= f.params@.subrange(0, i as int));
            assert(sub.last() == f.params@[i as int]);
        }
        match position(&bindings, p.name.as_str()) {
            Some(k) => {
                bindings.set(k, (string_of(p.name.as_str()), p.span, 1));
                assert(uses_view(bindings@) =~= st.update(k as int, (p.name@, p.span, 1usize)));
            },
            None => {
                bindings.push((string_of(p.name.as_str()), p.span, 1));
                assert(uses_view(bindings@) =~= st.push((p.name@, p.span, 1usize)));
            },
        }
        i = i + 1;
    }
    assert(f.params@.subrange(0, i as int) =~= f.params@);
    count_block(&f.body, &mut bindings);
    let ghost fin = uses_view(bindings@);
    assert(fin == uses_block(f.body, params_init(f.params@)));
    let mut j: usize = 0;
    assert(unused_entries(fin.subrange(0, 0)) =~= Seq::<(Seq<char>, Span)>::empty());
    while j < bindings.len()
        invariant
            fin == uses_view(bindings@),
            j <= bindings@.len(),
            unused_added(old(out)@, out@, unused_entries(fin.subrange(0, j as int))),
        decreases bindings.len() - j,
    {
        let (name, span, count) = (&bindings[j].0, bindings[j].1, bindings[j].2);
        let ghost before = out@;
        proof {
            let sub = fin.subrange(0, j + 1);
            assert(sub.drop_last() =~= fin.subrange(0, j as int));
            assert(sub.last() == fin[j as int]);
            assert(fin[j as int] == (name@, span, count));
        }
        if count == 0 && !starts_with(name.as_str(), "_") {
            let mut message = string_of("variable `");
            push_str(&mut message, name.as_str());
            push_str(&mut message, "` is declared but never used \u{2014} prefix with `_` to silence");
            let mut fix = string_of("rename to `_");
            push_str(&mut fix, name.as_str());
            push_str(&mut fix, "`");
            out.push(LintDiagnostic {
                code: "SL001",
                name: "unused_variable",
                severity: Severity::Warning,
                message,
                span: to_lint_span(src, span),
                fix: Some(fix),
            });
            assert(unused_message(name@) == out@.last().message@);
            proof {
                assert(unused_added(before, out@, seq![(name@, span)])) by {
                    assert(out@[before.len() as int] == out@.last());
                }
                lemma_unused_chain(old(out)@, before, out@, unused_entries(fin.subrange(0, j as int)), seq![(name@, span)]);
            }
        } else {
            proof {
                assert(unused_entries(fin.subrange(0, j + 1)) =~= unused_entries(fin.subrange(0, j as int)));
            }
        }
        j = j + 1;
    }
    assert(fin.subrange(0, j as int) =~= fin);
    proof {
        lemma_unused_props(old(out)@, out@, fn_unused(*f));
    }
}

/// The reports of the functions among `items`, in order.
pub open spec fn module_unused(items: Seq<Item>) -> Seq<(Seq<char>, Span)>
    decreases items.len(),
{
    if items.len() == 0 {
        seq![]
    } else {
        module_unused(items.drop_last()) + match items.last() {
            Item::FnDef(f) => fn_unused(f),
            _ => Seq::<(Seq<char>, Span)>::empty(),
        }
    }
}

/// Reports every unread `let` binding of every function: one report per
/// binding never read whose name does not start with `_`, in order.
pub fn check(src: &str, module: &Module, out: &mut Vec<LintDiagnostic>)
    ensures
        old(out)@.is_prefix_of(final(out)@),
        forall|k: int| old(out)@.len() <= k < final(out)@.len() ==> (#[trigger] final(out)@[k]).code@ == "SL001"@,
        forall|k: int| old(out)@.len() <= k < final(out)@.len() ==> is_unused_report(#[trigger] final(out)@[k]),
        unused_added(old(out)@, final(out)@, module_unused(module.items@)),
{
    let mut i: usize = 0;
    assert(module_unused(module.items@.subrange(0, 0)) =~= Seq::<(Seq<char>, Span)>::empty());
    while i < module.items.len()
        invariant
            i <= module.items@.len(),
            unused_added(old(out)@, out@, module_unused(module.items@.subrange(0, i as int))),
        decreases module.items.len() - i,
    {
        let ghost before = out@;
        proof {
            let sub = module.items@.subrange(0, i + 1);
            assert(sub.drop_last() =~= module.items@.subrange(0, i as int));
            assert(sub.last() == module.items@[i as int]);
        }
        if let Item::FnDef(f) = &module.items[i] {
            check_fn(src, f, out);
            proof {
                lemma_unused_chain(old(out)@, before, out@, module_unused(module.items@.subrange(0, i as int)), fn_unused(*f));
            }
        } else {
            proof {
                assert(module_unused(module.items@.subrange(0, i + 1)) =~= module_unused(module.items@.subrange(0, i as int)));
            }
        }
        i = i + 1;
    }
    assert(module.items@.subrange(0, i as int) =~= module.items@);
    proof {
        lemma_unused_props(old(out)@, out@, module_unused(module.items@));
    }
}

} // verus!
