//! SL003 — missing_return: a function with a return type that may end
//! without returning a value.

use vstd::prelude::*;
use crate::ast::{Module, Item, FnDef, Block, Stmt, Expr, ExprKind, Type};
use crate::lint::diag::{LintDiagnostic, LintSpan, Severity, offset_to_line_col, to_lint_span};
use crate::token::Span;
use crate::text::{string_of, push_str};

verus! {

broadcast use vstd::std_specs::vec::axiom_vec_index_decreases;

/// Every path through the block returns (or leaves the loop): it has a
/// tail, or some statement always returns.
pub open spec fn block_returns(b: Block) -> bool
    decreases b,
{
    b.tail is Some || stmts_return(b.stmts@)
}

pub open spec fn stmts_return(ss: Seq<Stmt>) -> bool
    decreases ss,
{
    ss.len() > 0 && (stmts_return(ss.drop_last()) || match ss.last() {
        Stmt::Expr(e, _) => expr_returns(e),
        _ => false,
    })
}

pub open spec fn expr_returns(e: Expr) -> bool
    decreases e,
{
    match e.kind {
        ExprKind::Return { .. } | ExprKind::Break { .. } | ExprKind::Continue => true,
        ExprKind::If { then, else_, .. } => match else_ {
            Some(el) => block_returns(then) && expr_returns(*el),
            None => false,
        },
        ExprKind::Block(b) => block_returns(b),
        _ => false,
    }
}

fn block_always_returns(b: &Block) -> (r: bool)
    ensures
        r == block_returns(*b),
    decreases b, 0nat,
{
    if b.tail.is_some() {
        return true;
    }
    let mut i: usize = 0;
    while i < b.stmts.len()
        invariant
            b.tail is None,
            i <= b.stmts@.len(),
            !stmts_return(b.stmts@.subrange(0, i as int)),
        decreases b.stmts.len() - i,
    {
        let ghost sub = b.stmts@.subrange(0, i + 1);
        assert(sub.drop_last() =~= b.stmts@.subrange(0, i as int));
        assert(decreases_to!(b => b.stmts@[i as int])) by {
            assert(decreases_to!(b => b.stmts));
            assert(decreases_to!(b.stmts => b.stmts@));
        }
        if stmt_always_returns(&b.stmts[i]) {
            proof {
                lemma_stmts_return_mono(b.stmts@, i + 1);
            }
            return true;
        }
        i = i + 1;
    }
    assert(b.stmts@.subrange(0, i as int) =~= b.stmts@);
    false
}

proof fn lemma_stmts_return_mono(ss: Seq<Stmt>, k: int)
    requires
        0 <= k <= ss.len(),
        stmts_return(ss.subrange(0, k)),
    ensures
        stmts_return(ss),
    decreases ss.len() - k,
{
    if k == ss.len() {
        assert(ss.subrange(0, k) =~= ss);
    } else {
        assert(ss.subrange(0, k + 1).drop_last() =~= ss.subrange(0, k));
        lemma_stmts_return_mono(ss, k + 1);
    }
}

fn stmt_always_returns(s: &Stmt) -> (r: bool)
    ensures
        r == match *s {
            Stmt::Expr(e, _) => expr_returns(e),
            _ => false,
        },
    decreases s, 0nat,
{
    match s {
        Stmt::Expr(e, _) => expr_always_returns(e),
        _ => false,
    }
}

fn expr_always_returns(e: &Expr) -> (r: bool)
    ensures
        r == expr_returns(*e),
    decreases e, 0nat,
{
    match &e.kind {
        ExprKind::Return { .. } | ExprKind::Break { .. } | ExprKind::Continue => true,
        ExprKind::If { then, else_, .. } => match else_ {
            Some(el) => {
                assert(decreases_to!(e => e.kind));
                assert(decreases_to!(e.kind => e.kind->If_else_));
                block_always_returns(then) && expr_always_returns(el)
            },
            None => false,
        },
        ExprKind::Block(b) => block_always_returns(b),
        _ => false,
    }
}

/// A function declares a value to return: a return type other than `void`.
pub open spec fn returns_value(f: FnDef) -> bool {
    match f.return_ty {
        None => false,
        Some(t) => !(t is Void),
    }
}

fn check_fn(src: &str, f: &FnDef, out: &mut Vec<LintDiagnostic>)
    ensures
        final(out)@ == if returns_value(*f) && !block_returns(f.body) {
            old(out)@.push(final(out)@.last())
        } else {
            old(out)@
        },
        returns_value(*f) && !block_returns(f.body) ==> missing_report(final(out)@.last(), *f),
{
    let has_value = match &f.return_ty {
        None => false,
        Some(Type::Void(_)) => false,
        Some(_) => true,
    };
    if !has_value {
        return;
    }
    if !block_always_returns(&f.body) {
        let end = f.span.end;
        let at = if end > 0 { end - 1 } else { 0 };
        let ls = to_lint_span(src, Span::new(at, end, f.span.file_id));
        let mut message = string_of("function `");
        push_str(&mut message, f.name.as_str());
        push_str(&mut message, "` may not return a value on all paths");
        out.push(LintDiagnostic {
            code: "SL003",
            name: "missing_return",
            severity: Severity::Error,
            message,
            span: ls,
            fix: Some(string_of("ensure every code path has an explicit `return`")),
        });
    }
}

/// `d` reports that function `f` may end without a value.
pub open spec fn missing_report(d: LintDiagnostic, f: FnDef) -> bool {
    &&& d.code@ == "SL003"@
    &&& d.name@ == "missing_return"@
    &&& d.severity == Severity::Error
    &&& d.message@ == "function `"@ + f.name@ + "` may not return a value on all paths"@
    &&& d.fix matches Some(x) && x@ == "ensure every code path has an explicit `return`"@
    &&& d.span.end == f.span.end as u32
}

/// The functions among `items` with a return value that may end without
/// one, in order.
pub open spec fn missing_fns(items: Seq<Item>) -> Seq<FnDef>
    decreases items.len(),
{
    if items.len() == 0 {
        seq![]
    } else {
        missing_fns(items.drop_last()) + match items.last() {
            Item::FnDef(f) => if returns_value(f) && !block_returns(f.body) {
                seq![f]
            } else {
                Seq::<FnDef>::empty()
            },
            _ => Seq::<FnDef>::empty(),
        }
    }
}

/// Reports each function with a return type that may end without a value,
/// in order.
pub fn check(src: &str, module: &Module, out: &mut Vec<LintDiagnostic>)
    ensures
        old(out)@.is_prefix_of(final(out)@),
        forall|k: int| old(out)@.len() <= k < final(out)@.len() ==> (#[trigger] final(out)@[k]).code@ == "SL003"@,
        final(out)@.len() == old(out)@.len() + missing_fns(module.items@).len(),
        forall|k: int|
            0 <= k < missing_fns(module.items@).len() ==> missing_report(
                #[trigger] final(out)@[old(out)@.len() + k],
                missing_fns(module.items@)[k],
            ),
{
    let mut i: usize = 0;
    while i < module.items.len()
        invariant
            i <= module.items@.len(),
            old(out)@.len() <= out@.len(),
            out@.subrange(0, old(out)@.len() as int) == old(out)@,
            forall|k: int| old(out)@.len() <= k < out@.len() ==> (#[trigger] out@[k]).code@ == "SL003"@,
            out@.len() == old(out)@.len() + missing_fns(module.items@.subrange(0, i as int)).len(),
            forall|k: int|
                0 <= k < missing_fns(module.items@.subrange(0, i as int)).len() ==> missing_report(
                    #[trigger] out@[old(out)@.len() + k],
                    missing_fns(module.items@.subrange(0, i as int))[k],
                ),
        decreases module.items.len() - i,
    {
        let ghost before = out@;
        let ghost prev = missing_fns(module.items@.subrange(0, i as int));
        proof {
            let sub = module.items@.subrange(0, i + 1);
            assert(sub.drop_last() =~= module.items@.subrange(0, i as int));
            assert(sub.last() == module.items@[i as int]);
        }
        if let Item::FnDef(f) = &module.items[i] {
            check_fn(src, f, out);
            assert(out@.subrange(0, old(out)@.len() as int) =~= before.subrange(0, old(out)@.len() as int));
            proof {
                let sub = module.items@.subrange(0, i + 1);
                assert forall|k: int| 0 <= k < missing_fns(sub).len() implies missing_report(
                    #[trigger] out@[old(out)@.len() + k],
                    missing_fns(sub)[k],
                ) by {
                    if k < prev.len() {
                        assert(out@[old(out)@.len() + k] == before[old(out)@.len() + k]);
                    }
                }
            }
        }
        i = i + 1;
    }
    assert(module.items@.subrange(0, i as int) =~= module.items@);
    assert(old(out)@ =~= out@.subrange(0, old(out)@.len() as int));
}

} // verus!
