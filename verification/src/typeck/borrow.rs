//! Ownership and borrow checking.
//!
//! Enforces, per function:
//!
//!   1. **Use after move**: a non-Copy binding cannot be read after its
//!      value was moved into another binding or passed by value to a call.
//!   2. **Double move**: a non-Copy binding cannot be moved twice.
//!   3. **Mutation of `const`**: immutable bindings cannot be re-assigned.
//!
//! A forward pass over the AST.  Branch states merge conservatively: a
//! binding is moved if either branch moved it.  Copy types (`i32`, `i64`,
//! `f32`, `f64`, `bool`, `char`) are duplicated and never reported.

use vstd::prelude::*;
use crate::ast::{FnDef, Block, Stmt, Expr, ExprKind, Pattern, PatternKind, TemplatePart};
use crate::token::Span;
use crate::typeck::error::TypeError;
use crate::typeck::ty::Ty;
use crate::text::{str_eq, string_of};

verus! {

broadcast use vstd::std_specs::vec::axiom_vec_index_decreases;

#[derive(Debug, Clone, Copy, PartialEq, Eq, Structural)]
pub enum VarState {
    Uninit,
    Owned,
    /// The value was moved out of the binding at `at`.
    Moved { at: Span },
}

/// What the checker knows of one binding: its name, state, whether its
/// type is Copy, and whether it is constant.
pub struct BindingV {
    pub name: Seq<char>,
    pub state: VarState,
    pub copy: bool,
    pub is_const: bool,
}

pub struct OwnershipCtx {
    /// Innermost scope last; a name occurs at most once per scope.
    scopes: Vec<Vec<(String, VarState, Ty, bool)>>,
    pub errors: Vec<TypeError>,
}

/// Values of this type are copied, not moved.
pub open spec fn copy_type(t: Ty) -> bool {
    t.copy_spec()
}

pub fn is_copy_ty(ty: &Ty) -> (b: bool)
    ensures
        b == copy_type(*ty),
{
    match ty {
        Ty::I32 | Ty::I64 | Ty::F32 | Ty::F64 | Ty::Bool | Ty::Char => true,
        _ => false,
    }
}

/// The binding a name refers to: `(scope, entry)` in the innermost scope
/// that has it, among the first `n` scopes.
pub open spec fn locate(scopes: Seq<Seq<BindingV>>, name: Seq<char>, n: int) -> Option<(int, int)>
    decreases n,
{
    if n <= 0 {
        None
    } else if exists|k: int| 0 <= k < scopes[n - 1].len() && (#[trigger] scopes[n - 1][k]).name == name {
        Some((n - 1, choose|k: int| 0 <= k < scopes[n - 1].len() && (#[trigger] scopes[n - 1][k]).name == name))
    } else {
        locate(scopes, name, n - 1)
    }
}

/// No name occurs twice in one scope.
pub open spec fn scopes_unique(scopes: Seq<Seq<BindingV>>) -> bool {
    forall|s: int, a: int, b: int|
        0 <= s < scopes.len() && 0 <= a < b < scopes[s].len() ==> (#[trigger] scopes[s][a]).name != (#[trigger] scopes[s][b]).name
}

pub open spec fn binding_view(e: (String, VarState, Ty, bool)) -> BindingV {
    BindingV { name: e.0@, state: e.1, copy: copy_type(e.2), is_const: e.3 }
}

/// `scopes` with the state of the binding at `(s, k)` set to `st`.
pub open spec fn set_state(scopes: Seq<Seq<BindingV>>, at: (int, int), st: VarState) -> Seq<Seq<BindingV>> {
    scopes.update(at.0, scopes[at.0].update(at.1, BindingV { state: st, ..scopes[at.0][at.1] }))
}

/// The two errors the checker reports.
pub enum ErrorKind {
    UseAfterMove,
    ImmutableAssign,
}

/// `new` is `old` with one error of kind `k` for `name` at `span` appended.
pub open spec fn reported(old: Seq<TypeError>, new: Seq<TypeError>, k: ErrorKind, name: Seq<char>, span: Span) -> bool {
    &&& new.len() == old.len() + 1
    &&& new.drop_last() == old
    &&& match k {
        ErrorKind::UseAfterMove => new.last() matches TypeError::UseAfterMove { name: n, span: sp } && n@ == name && sp == span,
        ErrorKind::ImmutableAssign => new.last() matches TypeError::ImmutableAssign { name: n, span: sp } && n@ == name && sp == span,
    }
}

/// An ownership error as plain values: whether it is a use after move,
/// the name, and the span.
pub open spec fn err_v(e: TypeError) -> (bool, Seq<char>, Span) {
    match e {
        TypeError::UseAfterMove { name, span } => (true, name@, span),
        TypeError::ImmutableAssign { name, span } => (false, name@, span),
        _ => (false, Seq::<char>::empty(), Span { start: 0, end: 0, file_id: 0 }),
    }
}

pub open spec fn errs_v(es: Seq<TypeError>) -> Seq<(bool, Seq<char>, Span)> {
    es.map_values(|e: TypeError| err_v(e))
}

proof fn lemma_errs_push_any(es: Seq<TypeError>)
    ensures
        forall|e: TypeError| #[trigger] errs_v(es.push(e)) == errs_v(es).push(err_v(e)),
{
    assert forall|e: TypeError| #[trigger] errs_v(es.push(e)) == errs_v(es).push(err_v(e)) by {
        assert(errs_v(es.push(e)) =~= errs_v(es).push(err_v(e)));
    }
}

/// The position of `name` in one scope.
pub open spec fn frame_pos(f: Seq<BindingV>, name: Seq<char>) -> Option<int> {
    if exists|k: int| 0 <= k < f.len() && (#[trigger] f[k]).name == name {
        Some(choose|k: int| 0 <= k < f.len() && (#[trigger] f[k]).name == name)
    } else {
        None
    }
}

/// `name` introduced, owned, in the innermost scope, replacing a binding
/// of that name there.
pub open spec fn declare_b(bs: Seq<Seq<BindingV>>, name: Seq<char>, copy: bool, is_const: bool) -> Seq<Seq<BindingV>> {
    let last = bs.len() - 1;
    let nv = BindingV { name, state: VarState::Owned, copy, is_const };
    match frame_pos(bs[last], name) {
        Some(k) => bs.update(last, bs[last].update(k, nv)),
        None => bs.update(last, bs[last].push(nv)),
    }
}

/// The check's state: the scopes and the errors so far.
pub type BState = (Seq<Seq<BindingV>>, Seq<(bool, Seq<char>, Span)>);

/// A read of `name` at `sp`.
pub open spec fn use_b(st: BState, name: Seq<char>, sp: Span) -> BState {
    match locate(st.0, name, st.0.len() as int) {
        Some(at) => if !st.0[at.0][at.1].copy && st.0[at.0][at.1].state is Moved {
            (st.0, st.1.push((true, name, sp)))
        } else {
            st
        },
        None => st,
    }
}

/// A move of `name` at `sp`.
pub open spec fn move_b(st: BState, name: Seq<char>, sp: Span) -> BState {
    match locate(st.0, name, st.0.len() as int) {
        Some(p) => if st.0[p.0][p.1].copy {
            st
        } else if st.0[p.0][p.1].state is Moved {
            (st.0, st.1.push((true, name, sp)))
        } else {
            (set_state(st.0, p, VarState::Moved { at: sp }), st.1)
        },
        None => st,
    }
}

/// An assignment to `name` at `sp`.
pub open spec fn assign_b(st: BState, name: Seq<char>, sp: Span) -> BState {
    match locate(st.0, name, st.0.len() as int) {
        Some(p) => if st.0[p.0][p.1].is_const {
            (st.0, st.1.push((false, name, sp)))
        } else {
            (set_state(st.0, p, VarState::Owned), st.1)
        },
        None => st,
    }
}

pub open spec fn push_b(st: BState) -> BState {
    (st.0.push(Seq::<BindingV>::empty()), st.1)
}

pub open spec fn pop_b(st: BState) -> BState {
    (if st.0.len() > 1 { st.0.drop_last() } else { st.0 }, st.1)
}

impl OwnershipCtx {
    /// The scopes, innermost last.
    pub closed spec fn bindings(&self) -> Seq<Seq<BindingV>> {
        Seq::new(self.scopes@.len(), |s: int| self.scopes@[s]@.map_values(|e: (String, VarState, Ty, bool)| binding_view(e)))
    }

    /// The errors reported so far.
    pub closed spec fn errs(&self) -> Seq<TypeError> {
        self.errors@
    }

    /// The scopes and the errors, as plain values.
    pub open spec fn state(&self) -> BState {
        (self.bindings(), errs_v(self.errs()))
    }

    pub closed spec fn wf(&self) -> bool {
        &&& self.scopes@.len() >= 1
        &&& scopes_unique(self.bindings())
    }

    pub fn new() -> (c: OwnershipCtx)
        ensures
            c.wf(),
            c.bindings() == seq![Seq::<BindingV>::empty()],
            c.errs().len() == 0,
    {
        let mut scopes: Vec<Vec<(String, VarState, Ty, bool)>> = Vec::new();
        scopes.push(Vec::new());
        let c = OwnershipCtx { scopes, errors: Vec::new() };
        assert(c.bindings() =~~= seq![Seq::<BindingV>::empty()]);
        c
    }

    pub fn push_scope(&mut self)
        requires
            old(self).wf(),
        ensures
            final(self).wf(),
            final(self).bindings() == old(self).bindings().push(Seq::<BindingV>::empty()),
            final(self).errs() == old(self).errs(),
            final(self).state() == push_b(old(self).state()),
    {
        self.scopes.push(Vec::new());
        assert(self.bindings() =~~= old(self).bindings().push(Seq::<BindingV>::empty()));
    }

    /// Leaves the innermost scope (the outermost one stays).
    pub fn pop_scope(&mut self)
        requires
            old(self).wf(),
        ensures
            final(self).wf(),
            final(self).bindings() == if old(self).bindings().len() > 1 {
                old(self).bindings().drop_last()
            } else {
                old(self).bindings()
            },
            final(self).errs() == old(self).errs(),
            final(self).state() == pop_b(old(self).state()),
    {
        if self.scopes.len() > 1 {
            self.scopes.pop();
            assert(self.bindings() =~~= old(self).bindings().drop_last());
        }
    }

    /// The position of `name`'s binding, innermost scope first.
    fn find(&self, name: &str) -> (r: Option<(usize, usize)>)
        requires
            self.wf(),
        ensures
            match r {
                Some((s, k)) => locate(self.bindings(), name@, self.bindings().len() as int) == Some((s as int, k as int))
                    && s < self.scopes@.len() && k < self.scopes@[s as int]@.len(),
                None => locate(self.bindings(), name@, self.bindings().len() as int) is None,
            },
    {
        let ghost bs = self.bindings();
        let mut s = self.scopes.len();
        while s > 0
            invariant
                bs == self.bindings(),
                self.wf(),
                s <= self.scopes@.len(),
                locate(bs, name@, bs.len() as int) == locate(bs, name@, s as int),
            decreases s,
        {
            let scope = &self.scopes[s - 1];
            let mut k: usize = 0;
            while k < scope.len()
                invariant
                    bs == self.bindings(),
                    self.wf(),
                    locate(bs, name@, bs.len() as int) == locate(bs, name@, s as int),
                    1 <= s <= self.scopes@.len(),
                    *scope == self.scopes@[s - 1],
                    k <= scope@.len(),
                    forall|j: int| 0 <= j < k ==> (#[trigger] bs[s - 1][j]).name != name@,
                decreases scope.len() - k,
            {
                assert(bs[s - 1][k as int] == binding_view(scope@[k as int]));
                if str_eq(scope[k].0.as_str(), name) {
                    proof {
                        let c = choose|c: int| 0 <= c < bs[s - 1].len() && (#[trigger] bs[s - 1][c]).name == name@;
                        assert(c == k) by {
                            if c != k {
                                assert(bs[s - 1][c].name == bs[s - 1][k as int].name);
                            }
                        }
                        assert(locate(bs, name@, s as int) == Some(((s - 1) as int, k as int)));
                    }
                    return Some((s - 1, k));
                }
                k = k + 1;
            }
            s = s - 1;
        }
        None
    }

    /// Introduces `name` in the innermost scope (replacing a binding of the
    /// same name there), owned.
    pub fn declare(&mut self, name: String, ty: Ty, is_const: bool)
        requires
            old(self).wf(),
        ensures
            final(self).wf(),
            final(self).errs() == old(self).errs(),
            final(self).bindings().len() == old(self).bindings().len(),
            final(self).bindings().drop_last() == old(self).bindings().drop_last(),
            locate(final(self).bindings(), name@, final(self).bindings().len() as int) matches Some(at)
                && at.0 == final(self).bindings().len() - 1
                && final(self).bindings()[at.0][at.1] == (BindingV { name: name@, state: VarState::Owned, copy: copy_type(ty), is_const }),
            final(self).bindings() == declare_b(old(self).bindings(), name@, copy_type(ty), is_const),
            final(self).state() == (declare_b(old(self).bindings(), name@, copy_type(ty), is_const), errs_v(old(self).errs())),
    {
        let last = self.scopes.len() - 1;
        let ghost old_b = self.bindings();
        let ghost nv = BindingV { name: name@, state: VarState::Owned, copy: copy_type(ty), is_const };
        let mut k: usize = 0;
        while k < self.scopes[last].len()
            invariant
                last == self.scopes@.len() - 1,
                nv == (BindingV { name: name@, state: VarState::Owned, copy: copy_type(ty), is_const }),
                self.bindings() == old_b,
                old(self).wf(),
                old_b == old(self).bindings(),
                self.errors == old(self).errors,
                k <= self.scopes@[last as int]@.len(),
                forall|j: int| 0 <= j < k ==> (#[trigger] old_b[last as int][j]).name != name@,
            decreases self.scopes@[last as int]@.len() - k,
        {
            assert(old_b[last as int][k as int] == binding_view(self.scopes@[last as int]@[k as int]));
            if str_eq(self.scopes[last][k].0.as_str(), name.as_str()) {
                let entry = (name, VarState::Owned, ty, is_const);
                assert(binding_view(entry) == nv);
                let ghost before_scope = self.scopes@[last as int]@;
                self.scopes[last].set(k, entry);
                assert(self.scopes@[last as int]@ == before_scope.update(k as int, entry));
                proof {
                    let nb = self.bindings();
                    assert(nb =~~= old_b.update(last as int, old_b[last as int].update(k as int, nv)));
                    assert(scopes_unique(nb)) by {
                        assert forall|s: int, a: int, b: int|
                            0 <= s < nb.len() && 0 <= a < b < nb[s].len() implies (#[trigger] nb[s][a]).name != (#[trigger] nb[s][b]).name by {
                            if s == last && (a == k || b == k) {
                                assert(old_b[s][a].name != old_b[s][b].name);
                            }
                        }
                    }
                    assert(nb.drop_last() =~~= old_b.drop_last());
                    assert(exists|j: int| 0 <= j < nb[last as int].len() && (#[trigger] nb[last as int][j]).name == name@) by {
                        assert(nb[last as int][k as int].name == name@);
                    }
                    let c = choose|j: int| 0 <= j < nb[last as int].len() && (#[trigger] nb[last as int][j]).name == name@;
                    assert(c == k) by {
                        if c != k {
                            assert(nb[last as int][c].name == nb[last as int][k as int].name);
                        }
                    }
                    assert(old_b[last as int][k as int].name == name@);
                    let c2 = choose|j: int| 0 <= j < old_b[last as int].len() && (#[trigger] old_b[last as int][j]).name == name@;
                    assert(c2 == k) by {
                        if c2 != k {
                            if c2 < k {
                                assert(old_b[last as int][c2].name != old_b[last as int][k as int].name);
                            } else {
                                assert(old_b[last as int][k as int].name != old_b[last as int][c2].name);
                            }
                        }
                    }
                    assert(frame_pos(old_b[last as int], name@) == Some(k as int));
                }
                return;
            }
            k = k + 1;
        }
        self.scopes[last].push((name, VarState::Owned, ty, is_const));
        proof {
            let nb = self.bindings();
            assert(nb =~~= old_b.update(last as int, old_b[last as int].push(nv)));
            assert(scopes_unique(nb)) by {
                assert forall|s: int, a: int, b: int|
                    0 <= s < nb.len() && 0 <= a < b < nb[s].len() implies (#[trigger] nb[s][a]).name != (#[trigger] nb[s][b]).name by {
                    if s == last && b == old_b[last as int].len() {
                        assert(nb[s][a] == old_b[s][a]);
                    } else if s == last {
                        assert(nb[s][a] == old_b[s][a] && nb[s][b] == old_b[s][b]);
                    }
                }
            }
            assert(nb.drop_last() =~~= old_b.drop_last());
            let kk = old_b[last as int].len() as int;
            assert(nb[last as int][kk].name == name@);
            let c = choose|j: int| 0 <= j < nb[last as int].len() && (#[trigger] nb[last as int][j]).name == name@;
            assert(c == kk) by {
                if c != kk {
                    assert(nb[last as int][c].name == nb[last as int][kk].name);
                }
            }
        }
    }

    fn set_at(&mut self, s: usize, k: usize, st: VarState)
        requires
            old(self).wf(),
            s < old(self).scopes@.len(),
            k < old(self).scopes@[s as int]@.len(),
        ensures
            final(self).wf(),
            final(self).errs() == old(self).errs(),
            final(self).bindings() == set_state(old(self).bindings(), (s as int, k as int), st),
    {
        self.scopes[s][k].1 = st;
        proof {
            let ob = old(self).bindings();
            let nb = self.bindings();
            assert(nb =~~= set_state(ob, (s as int, k as int), st));
            assert forall|a: int, b: int, c: int|
                0 <= a < nb.len() && 0 <= b < c < nb[a].len() implies (#[trigger] nb[a][b]).name != (#[trigger] nb[a][c]).name by {
                assert(ob[a][b].name == nb[a][b].name && ob[a][c].name == nb[a][c].name);
            }
        }
    }

    /// A read of `name` at `span`: an error if a non-Copy binding was moved.
    pub fn check_use(&mut self, name: &str, span: Span)
        requires
            old(self).wf(),
        ensures
            final(self).wf(),
            checked(*old(self), *final(self)),
            final(self).bindings() == old(self).bindings(),
            match locate(old(self).bindings(), name@, old(self).bindings().len() as int) {
                Some(at) => if !old(self).bindings()[at.0][at.1].copy && old(self).bindings()[at.0][at.1].state is Moved {
                    reported(old(self).errs(), final(self).errs(), ErrorKind::UseAfterMove, name@, span)
                } else {
                    final(self).errs() == old(self).errs()
                },
                None => final(self).errs() == old(self).errs(),
            },
            final(self).state() == use_b(old(self).state(), name@, span),
    {
        proof {
            lemma_errs_push_any(self.errors@);
        }
        if let Some((s, k)) = self.find(name) {
            let e = &self.scopes[s][k];
            assert(self.bindings()[s as int][k as int] == binding_view(*e));
            if is_copy_ty(&e.2) {
                return;
            }
            if let VarState::Moved { .. } = e.1 {
                self.errors.push(TypeError::UseAfterMove { name: crate::text::string_of(name), span });
                assert(self.errors@.drop_last() =~= old(self).errors@);
            }
        }
    }
}

impl OwnershipCtx {
    /// A move of `name` at `at`: an error if a non-Copy binding was moved
    /// already; otherwise it becomes moved.
    pub fn mark_moved(&mut self, name: &str, at: Span)
        requires
            old(self).wf(),
        ensures
            final(self).state() == move_b(old(self).state(), name@, at),
            final(self).wf(),
            checked(*old(self), *final(self)),
            match locate(old(self).bindings(), name@, old(self).bindings().len() as int) {
                Some(p) => if old(self).bindings()[p.0][p.1].copy {
                    final(self).bindings() == old(self).bindings() && final(self).errs() == old(self).errs()
                } else if old(self).bindings()[p.0][p.1].state is Moved {
                    final(self).bindings() == old(self).bindings()
                        && reported(old(self).errs(), final(self).errs(), ErrorKind::UseAfterMove, name@, at)
                } else {
                    final(self).bindings() == set_state(old(self).bindings(), p, VarState::Moved { at })
                        && final(self).errs() == old(self).errs()
                },
                None => final(self).bindings() == old(self).bindings() && final(self).errs() == old(self).errs(),
            },
    {
        if let Some((s, k)) = self.find(name) {
            assert(self.bindings()[s as int][k as int] == binding_view(self.scopes@[s as int]@[k as int]));
            if is_copy_ty(&self.scopes[s][k].2) {
                return;
            }
            if let VarState::Moved { .. } = self.scopes[s][k].1 {
                self.errors.push(TypeError::UseAfterMove { name: crate::text::string_of(name), span: at });
                assert(self.errors@.drop_last() =~= old(self).errors@);
            } else {
                self.set_at(s, k, VarState::Moved { at });
            }
        }
    }

    /// An assignment to `name` at `span`: an error for a constant; otherwise
    /// the binding is owned again.
    pub fn check_assign(&mut self, name: &str, span: Span)
        requires
            old(self).wf(),
        ensures
            final(self).state() == assign_b(old(self).state(), name@, span),
            final(self).wf(),
            checked(*old(self), *final(self)),
            match locate(old(self).bindings(), name@, old(self).bindings().len() as int) {
                Some(p) => if old(self).bindings()[p.0][p.1].is_const {
                    final(self).bindings() == old(self).bindings()
                        && reported(old(self).errs(), final(self).errs(), ErrorKind::ImmutableAssign, name@, span)
                } else {
                    final(self).bindings() == set_state(old(self).bindings(), p, VarState::Owned)
                        && final(self).errs() == old(self).errs()
                },
                None => final(self).bindings() == old(self).bindings() && final(self).errs() == old(self).errs(),
            },
    {
        if let Some((s, k)) = self.find(name) {
            assert(self.bindings()[s as int][k as int] == binding_view(self.scopes@[s as int]@[k as int]));
            if self.scopes[s][k].3 {
                self.errors.push(TypeError::ImmutableAssign { name: crate::text::string_of(name), span });
                assert(self.errors@.drop_last() =~= old(self).errors@);
                return;
            }
            self.set_at(s, k, VarState::Owned);
        }
    }

    /// The bindings of `self` (types copied), with no errors: the starting
    /// point of a branch.
    fn branch(&self) -> (c: OwnershipCtx)
        requires
            self.wf(),
        ensures
            c.wf(),
            c.bindings() == self.bindings(),
            c.errs().len() == 0,
            c.state() == (self.bindings(), Seq::<(bool, Seq<char>, Span)>::empty()),
    {
        let mut scopes: Vec<Vec<(String, VarState, Ty, bool)>> = Vec::new();
        let mut s: usize = 0;
        while s < self.scopes.len()
            invariant
                s <= self.scopes@.len(),
                scopes@.len() == s,
                forall|t: int| 0 <= t < s ==> (#[trigger] scopes@[t])@.len() == self.scopes@[t]@.len(),
                forall|t: int, j: int| 0 <= t < s && 0 <= j < scopes@[t]@.len() ==> binding_view(#[trigger] scopes@[t]@[j]) == binding_view(self.scopes@[t]@[j]),
            decreases self.scopes.len() - s,
        {
            let src = &self.scopes[s];
            let mut dst: Vec<(String, VarState, Ty, bool)> = Vec::new();
            let mut k: usize = 0;
            while k < src.len()
                invariant
                    k <= src@.len(),
                    dst@.len() == k,
                    forall|j: int| 0 <= j < k ==> binding_view(#[trigger] dst@[j]) == binding_view(src@[j]),
                decreases src.len() - k,
            {
                let e = &src[k];
                dst.push((e.0.clone(), e.1, e.2.duplicate(), e.3));
                k = k + 1;
            }
            scopes.push(dst);
            s = s + 1;
        }
        let c = OwnershipCtx { scopes, errors: Vec::new() };
        assert(c.bindings() =~~= self.bindings());
        c
    }

    /// Whether `name` is moved in this context.
    fn is_moved(&self, name: &str) -> (b: bool)
        requires
            self.wf(),
        ensures
            b == (locate(self.bindings(), name@, self.bindings().len() as int) matches Some(p)
                && self.bindings()[p.0][p.1].state is Moved),
    {
        match self.find(name) {
            Some((s, k)) => {
                assert(self.bindings()[s as int][k as int] == binding_view(self.scopes@[s as int]@[k as int]));
                match self.scopes[s][k].1 {
                    VarState::Moved { .. } => true,
                    _ => false,
                }
            },
            None => false,
        }
    }

    /// Marks moved every binding of `self` whose name was moved in either
    /// branch.
    fn merge_names(
        &mut self,
        from: &OwnershipCtx,
        then_ctx: &OwnershipCtx,
        else_ctx: &OwnershipCtx,
        Ghost(orig): Ghost<Seq<Seq<BindingV>>>,
    )
        requires
            old(self).wf(),
            from.wf(),
            then_ctx.wf(),
            else_ctx.wf(),
            scopes_unique(orig),
            same_names(orig, old(self).bindings()),
            merge_step(orig, old(self).bindings(), then_ctx.bindings(), else_ctx.bindings()),
        ensures
            final(self).wf(),
            final(self).errs() == old(self).errs(),
            same_names(orig, final(self).bindings()),
            merge_step(orig, final(self).bindings(), then_ctx.bindings(), else_ctx.bindings()),
            still_moved(old(self).bindings(), final(self).bindings()),
            covered(orig, final(self).bindings(), from.bindings(), then_ctx.bindings(), else_ctx.bindings()),
    {
        let ghost fb = from.bindings();
        let ghost tb = then_ctx.bindings();
        let ghost eb = else_ctx.bindings();
        let mut s: usize = 0;
        while s < from.scopes.len()
            invariant
                self.wf(),
                from.wf(),
                then_ctx.wf(),
                else_ctx.wf(),
                fb == from.bindings(),
                tb == then_ctx.bindings(),
                eb == else_ctx.bindings(),
                scopes_unique(orig),
                s <= fb.len(),
                self.errs() == old(self).errs(),
                same_names(orig, old(self).bindings()),
                same_names(orig, self.bindings()),
                merge_step(orig, self.bindings(), tb, eb),
                still_moved(old(self).bindings(), self.bindings()),
                forall|i: int, j: int| 0 <= i < s && 0 <= j < fb[i].len() ==> #[trigger] done_at(orig, self.bindings(), tb, eb, fb[i][j].name),
            decreases from.scopes.len() - s,
        {
            let mut k: usize = 0;
            while k < from.scopes[s].len()
                invariant
                    s < fb.len(),
                    self.wf(),
                    from.wf(),
                    then_ctx.wf(),
                    else_ctx.wf(),
                    fb == from.bindings(),
                    tb == then_ctx.bindings(),
                    eb == else_ctx.bindings(),
                    scopes_unique(orig),
                    self.errs() == old(self).errs(),
                    same_names(orig, old(self).bindings()),
                    same_names(orig, self.bindings()),
                    merge_step(orig, self.bindings(), tb, eb),
                    still_moved(old(self).bindings(), self.bindings()),
                    k <= fb[s as int].len(),
                    forall|i: int, j: int| 0 <= i < s && 0 <= j < fb[i].len() ==> #[trigger] done_at(orig, self.bindings(), tb, eb, fb[i][j].name),
                    forall|j: int| 0 <= j < k ==> #[trigger] done_at(orig, self.bindings(), tb, eb, fb[s as int][j].name),
                decreases from.scopes@[s as int]@.len() - k,
            {
                let name = from.scopes[s][k].0.as_str();
                assert(name@ == fb[s as int][k as int].name);
                let ghost before = self.bindings();
                if then_ctx.is_moved(name) || else_ctx.is_moved(name) {
                    proof {
                        lemma_locate_same_names(orig, before, name@, orig.len() as int);
                    }
                    if let Some((a, b)) = self.find(name) {
                        let moved = match self.scopes[a][b].1 {
                            VarState::Moved { .. } => true,
                            _ => false,
                        };
                        assert(self.bindings()[a as int][b as int] == binding_view(self.scopes@[a as int]@[b as int]));
                        if !moved {
                            self.set_at(a, b, VarState::Moved { at: Span::new(0, 0, 0) });
                            proof {
                                let nb = self.bindings();
                                lemma_locate_in(before, name@, before.len() as int);
                                assert(before[a as int][b as int].name == name@);
                                assert(orig[a as int][b as int].name == name@);
                                assert(merge_ok(orig, before, tb, eb, a as int, b as int));
                                assert(before[a as int][b as int] == orig[a as int][b as int]);
                                assert(nb[a as int][b as int] == merged(orig, tb, eb, a as int, b as int));
                                assert forall|x: int, y: int| 0 <= x < nb.len() && 0 <= y < nb[x].len() implies #[trigger] merge_ok(orig, nb, tb, eb, x, y) by {
                                    if x == a && y == b {
                                        assert(merge_ok(orig, before, tb, eb, x, y));
                                    } else {
                                        assert(nb[x][y] == before[x][y]);
                                        assert(merge_ok(orig, before, tb, eb, x, y));
                                    }
                                }
                            }
                        }
                    }
                }
                proof {
                    let nb = self.bindings();
                    assert(still_moved(before, nb)) by {
                        assert forall|x: int, y: int| 0 <= x < before.len() && 0 <= y < before[x].len() && (#[trigger] before[x][y]).state is Moved implies nb[x][y].state is Moved by {
                            if nb != before {
                                if !(nb[x][y] == before[x][y]) {
                                    assert(merge_ok(orig, nb, tb, eb, x, y));
                                    assert(merge_ok(orig, before, tb, eb, x, y));
                                }
                            }
                        }
                    }
                    let ob = old(self).bindings();
                    assert forall|x: int, y: int| 0 <= x < ob.len() && 0 <= y < ob[x].len() && (#[trigger] ob[x][y]).state is Moved implies nb[x][y].state is Moved by {
                        assert(same_names(orig, ob));
                        assert(same_names(orig, before));
                        assert(orig[x].len() == ob[x].len());
                        assert(orig[x].len() == before[x].len());
                        assert(before[x][y].state is Moved);
                        assert(nb[x][y].state is Moved);
                    }
                    lemma_locate_same_names(orig, nb, fb[s as int][k as int].name, orig.len() as int);
                    assert forall|i: int, j: int| 0 <= i < s && 0 <= j < fb[i].len() implies #[trigger] done_at(orig, nb, tb, eb, fb[i][j].name) by {
                        assert(done_at(orig, before, tb, eb, fb[i][j].name));
                        lemma_locate_in(orig, fb[i][j].name, orig.len() as int);
                    }
                    assert forall|j: int| 0 <= j < k + 1 implies #[trigger] done_at(orig, nb, tb, eb, fb[s as int][j].name) by {
                        lemma_locate_in(orig, fb[s as int][j].name, orig.len() as int);
                        if j < k {
                            assert(done_at(orig, before, tb, eb, fb[s as int][j].name));
                        }
                    }
                }
                k = k + 1;
            }
            s = s + 1;
        }
    }

    /// Merges the moved state of two branches into `self`: a binding moved
    /// in either branch is moved here.
    pub fn merge_branch(&mut self, then_ctx: &OwnershipCtx, else_ctx: &OwnershipCtx)
        requires
            old(self).wf(),
            then_ctx.wf(),
            else_ctx.wf(),
        ensures
            final(self).wf(),
            final(self).errs() == old(self).errs(),
            final(self).bindings().len() == old(self).bindings().len(),
            forall|a: int| 0 <= a < old(self).bindings().len() ==> (#[trigger] final(self).bindings()[a]).len() == old(self).bindings()[a].len(),
            forall|a: int, b: int|
                0 <= a < old(self).bindings().len() && 0 <= b < old(self).bindings()[a].len() ==> #[trigger] final(self).bindings()[a][b]
                    == merged(old(self).bindings(), then_ctx.bindings(), else_ctx.bindings(), a, b),
            forall|n: Seq<char>|
                (moved_in(then_ctx.bindings(), n) || moved_in(else_ctx.bindings(), n)) && locate(
                    old(self).bindings(),
                    n,
                    old(self).bindings().len() as int,
                ) is Some ==> #[trigger] moved_in(final(self).bindings(), n),
            final(self).state() == (merged_all(old(self).bindings(), then_ctx.bindings(), else_ctx.bindings()), errs_v(old(self).errs())),
    {
        let ghost orig = self.bindings();
        let ghost tb = then_ctx.bindings();
        let ghost eb = else_ctx.bindings();
        proof {
            assert forall|x: int, y: int| 0 <= x < orig.len() && 0 <= y < orig[x].len() implies #[trigger] merge_ok(orig, orig, tb, eb, x, y) by {}
        }
        self.merge_names(then_ctx, then_ctx, else_ctx, Ghost(orig));
        let ghost mid = self.bindings();
        self.merge_names(else_ctx, then_ctx, else_ctx, Ghost(orig));
        proof {
            let fin = self.bindings();
            assert forall|a: int, b: int| 0 <= a < orig.len() && 0 <= b < orig[a].len() implies #[trigger] fin[a][b]
                == merged(orig, tb, eb, a, b) by {
                let nm = orig[a][b].name;
                assert(merge_ok(orig, fin, tb, eb, a, b));
                if locate(orig, nm, orig.len() as int) == Some((a, b)) && (moved_in(tb, nm) || moved_in(eb, nm))
                    && !(orig[a][b].state is Moved) {
                    if moved_in(tb, nm) {
                        let p = locate(tb, nm, tb.len() as int)->0;
                        lemma_locate_in(tb, nm, tb.len() as int);
                        assert(done_at(orig, mid, tb, eb, tb[p.0][p.1].name));
                    } else {
                        let p = locate(eb, nm, eb.len() as int)->0;
                        lemma_locate_in(eb, nm, eb.len() as int);
                        assert(done_at(orig, fin, tb, eb, eb[p.0][p.1].name));
                    }
                }
            }
            assert(same_names(orig, fin));
            assert forall|a: int| 0 <= a < orig.len() implies #[trigger] fin[a] =~= merged_all(orig, tb, eb)[a] by {
                assert(orig[a].len() == fin[a].len());
            }
            assert(fin =~= merged_all(orig, tb, eb));
            assert forall|n: Seq<char>|
                (moved_in(tb, n) || moved_in(eb, n)) && locate(orig, n, orig.len() as int) is Some implies #[trigger] moved_in(fin, n) by {
                lemma_locate_same_names(orig, fin, n, orig.len() as int);
                let q = locate(orig, n, orig.len() as int)->0;
                lemma_locate_in(orig, n, orig.len() as int);
                if moved_in(tb, n) {
                    let p = locate(tb, n, tb.len() as int)->0;
                    lemma_locate_in(tb, n, tb.len() as int);
                    assert(done_at(orig, mid, tb, eb, tb[p.0][p.1].name));
                } else {
                    let p = locate(eb, n, eb.len() as int)->0;
                    lemma_locate_in(eb, n, eb.len() as int);
                    assert(done_at(orig, fin, tb, eb, eb[p.0][p.1].name));
                }
            }
        }
    }
}

/// The scopes after merging the branches `t` and `e` into `bs`.
pub open spec fn merged_all(bs: Seq<Seq<BindingV>>, t: Seq<Seq<BindingV>>, e: Seq<Seq<BindingV>>) -> Seq<Seq<BindingV>> {
    Seq::new(bs.len(), |a: int| Seq::new(bs[a].len(), |b: int| merged(bs, t, e, a, b)))
}

/// The scopes have the same shape and names.
pub open spec fn same_names(a: Seq<Seq<BindingV>>, b: Seq<Seq<BindingV>>) -> bool {
    &&& a.len() == b.len()
    &&& forall|i: int| 0 <= i < a.len() ==> (#[trigger] a[i]).len() == b[i].len()
    &&& forall|i: int, j: int| 0 <= i < a.len() && 0 <= j < a[i].len() ==> (#[trigger] a[i][j]).name == b[i][j].name
        && a[i][j].copy == b[i][j].copy && a[i][j].is_const == b[i][j].is_const
}

/// Whether `n` names a moved binding in `bs`.
pub open spec fn moved_in(bs: Seq<Seq<BindingV>>, n: Seq<char>) -> bool {
    locate(bs, n, bs.len() as int) matches Some(p) && bs[p.0][p.1].state is Moved
}

/// The span a merge records for a move it infers.
pub open spec fn merge_span() -> Span {
    Span { start: 0, end: 0, file_id: 0 }
}

/// The binding at `(a, b)` after merging the branches `t` and `e` into
/// `bs`: the innermost binding of a name that either branch moved becomes
/// moved, unless it already was.
pub open spec fn merged(bs: Seq<Seq<BindingV>>, t: Seq<Seq<BindingV>>, e: Seq<Seq<BindingV>>, a: int, b: int) -> BindingV {
    let x = bs[a][b];
    if locate(bs, x.name, bs.len() as int) == Some((a, b)) && (moved_in(t, x.name) || moved_in(e, x.name))
        && !(x.state is Moved) {
        BindingV { state: VarState::Moved { at: merge_span() }, ..x }
    } else {
        x
    }
}

/// The binding at `(a, b)` is as in `orig`, or is what the merge makes of it.
pub open spec fn merge_ok(orig: Seq<Seq<BindingV>>, cur: Seq<Seq<BindingV>>, t: Seq<Seq<BindingV>>, e: Seq<Seq<BindingV>>, a: int, b: int) -> bool {
    cur[a][b] == orig[a][b] || cur[a][b] == merged(orig, t, e, a, b)
}

pub open spec fn merge_step(orig: Seq<Seq<BindingV>>, cur: Seq<Seq<BindingV>>, t: Seq<Seq<BindingV>>, e: Seq<Seq<BindingV>>) -> bool {
    forall|a: int, b: int| 0 <= a < cur.len() && 0 <= b < cur[a].len() ==> #[trigger] merge_ok(orig, cur, t, e, a, b)
}

/// Name `n` is handled: if a branch moved it, its innermost binding in
/// `cur` is moved.
pub open spec fn done_at(orig: Seq<Seq<BindingV>>, cur: Seq<Seq<BindingV>>, t: Seq<Seq<BindingV>>, e: Seq<Seq<BindingV>>, n: Seq<char>) -> bool {
    (moved_in(t, n) || moved_in(e, n)) ==> match locate(orig, n, orig.len() as int) {
        Some(q) => cur[q.0][q.1].state is Moved,
        None => true,
    }
}

/// Every name of `from` is handled.
pub open spec fn covered(orig: Seq<Seq<BindingV>>, cur: Seq<Seq<BindingV>>, from: Seq<Seq<BindingV>>, t: Seq<Seq<BindingV>>, e: Seq<Seq<BindingV>>) -> bool {
    forall|i: int, j: int| 0 <= i < from.len() && 0 <= j < from[i].len() ==> #[trigger] done_at(orig, cur, t, e, from[i][j].name)
}

/// No binding that was moved stops being moved.
pub open spec fn still_moved(a: Seq<Seq<BindingV>>, b: Seq<Seq<BindingV>>) -> bool {
    forall|i: int, j: int| 0 <= i < a.len() && 0 <= j < a[i].len() && (#[trigger] a[i][j]).state is Moved ==> b[i][j].state is Moved
}

proof fn lemma_locate_in(bs: Seq<Seq<BindingV>>, n: Seq<char>, m: int)
    requires
        0 <= m <= bs.len(),
    ensures
        locate(bs, n, m) matches Some(p) ==> 0 <= p.0 < m && 0 <= p.1 < bs[p.0].len() && bs[p.0][p.1].name == n,
    decreases m,
{
    if m > 0 && !(exists|k: int| 0 <= k < bs[m - 1].len() && (#[trigger] bs[m - 1][k]).name == n) {
        lemma_locate_in(bs, n, m - 1);
    }
}

proof fn lemma_locate_same_names(a: Seq<Seq<BindingV>>, b: Seq<Seq<BindingV>>, n: Seq<char>, m: int)
    requires
        same_names(a, b),
        scopes_unique(a),
        0 <= m <= a.len(),
    ensures
        locate(a, n, m) == locate(b, n, m),
    decreases m,
{
    if m > 0 {
        let s = m - 1;
        if exists|k: int| 0 <= k < a[s].len() && (#[trigger] a[s][k]).name == n {
            let ka = choose|k: int| 0 <= k < a[s].len() && (#[trigger] a[s][k]).name == n;
            assert(b[s][ka].name == n);
            let kb = choose|k: int| 0 <= k < b[s].len() && (#[trigger] b[s][k]).name == n;
            assert(a[s][kb].name == n);
            if ka != kb {
                if ka < kb {
                    assert(a[s][ka].name != a[s][kb].name);
                } else {
                    assert(a[s][kb].name != a[s][ka].name);
                }
            }
        } else {
            assert(!(exists|k: int| 0 <= k < b[s].len() && (#[trigger] b[s][k]).name == n)) by {
                if exists|k: int| 0 <= k < b[s].len() && (#[trigger] b[s][k]).name == n {
                    let kb = choose|k: int| 0 <= k < b[s].len() && (#[trigger] b[s][k]).name == n;
                    assert(a[s][kb].name == n);
                }
            }
            lemma_locate_same_names(a, b, n, m - 1);
        }
    }
}

/// `new` extends `old` with ownership errors only.
pub open spec fn errors_grow(old: Seq<TypeError>, new: Seq<TypeError>) -> bool {
    &&& old.len() <= new.len()
    &&& forall|i: int| 0 <= i < old.len() ==> #[trigger] new[i] == old[i]
    &&& forall|i: int| old.len() <= i < new.len() ==> (#[trigger] new[i] is UseAfterMove || new[i] is ImmutableAssign)
}

/// What every step of the check keeps: well-formed scopes, as many of them
/// as before, and only ownership errors added.
pub open spec fn checked(old: OwnershipCtx, new: OwnershipCtx) -> bool {
    &&& new.wf()
    &&& new.bindings().len() == old.bindings().len()
    &&& errors_grow(old.errs(), new.errs())
}

impl OwnershipCtx {
    /// Takes over the errors of a branch.
    fn absorb(&mut self, branch: &mut OwnershipCtx)
        requires
            old(self).wf(),
            errors_grow(Seq::empty(), old(branch).errs()),
        ensures
            checked(*old(self), *final(self)),
            old(branch).wf() ==> final(branch).wf(),
            final(branch).bindings() == old(branch).bindings(),
            final(self).state() == (old(self).bindings(), errs_v(old(self).errs()) + errs_v(old(branch).errs())),
    {
        let ghost before = self.errors@;
        let ghost added = branch.errors@;
        self.errors.append(&mut branch.errors);
        assert(self.errors@ =~= before + added);
        assert(errs_v(self.errors@) =~= errs_v(before) + errs_v(added));
    }
}

/// The type first recorded for `name`, or the error type.
pub open spec fn ty_of(m: Seq<(String, Ty)>, name: Seq<char>) -> Ty
    decreases m.len(),
{
    if m.len() == 0 {
        Ty::Error
    } else if m[0].0@ == name {
        m[0].1
    } else {
        ty_of(m.drop_first(), name)
    }
}

/// The type recorded for `name`, or the error type.
fn lookup_ty(ty_map: &Vec<(String, Ty)>, name: &str) -> (t: Ty)
    ensures
        t.copy_spec() == ty_of(ty_map@, name@).copy_spec(),
        t.numeric() == ty_of(ty_map@, name@).numeric(),
{
    let mut i: usize = 0;
    assert(ty_map@.subrange(0, ty_map@.len() as int) =~= ty_map@);
    while i < ty_map.len()
        invariant
            i <= ty_map@.len(),
            ty_of(ty_map@, name@) == ty_of(ty_map@.subrange(i as int, ty_map@.len() as int), name@),
        decreases ty_map.len() - i,
    {
        let ghost rest = ty_map@.subrange(i as int, ty_map@.len() as int);
        assert(rest[0] == ty_map@[i as int]);
        assert(rest.drop_first() =~= ty_map@.subrange(i + 1, ty_map@.len() as int));
        if str_eq(ty_map[i].0.as_str(), name) {
            return ty_map[i].1.duplicate();
        }
        i = i + 1;
    }
    Ty::Error
}

/// The bindings a pattern introduces, each declared with the type
/// recorded for its name (an or-pattern binds its first alternative).
pub open spec fn bind_pat(p: Pattern, c: bool, st: BState, tm: Seq<(String, Ty)>) -> BState
    decreases p, 0nat,
{
    match p.kind {
        PatternKind::Ident { name, mutable } => (declare_b(st.0, name@, copy_type(ty_of(tm, name@)), !mutable && c), st.1),
        PatternKind::Tuple(elems) => bind_pats(elems@, c, st, tm),
        PatternKind::Array(elems) => bind_pats(elems@, c, st, tm),
        PatternKind::TupleStruct { elems, .. } => bind_pats(elems@, c, st, tm),
        PatternKind::Struct { fields, .. } => bind_fpats(fields@, c, st, tm),
        PatternKind::Or(alts) => if alts@.len() > 0 {
            bind_pat(alts@[0], c, st, tm)
        } else {
            st
        },
        _ => st,
    }
}

pub open spec fn bind_pats(ps: Seq<Pattern>, c: bool, st: BState, tm: Seq<(String, Ty)>) -> BState
    decreases ps, 0nat,
{
    if ps.len() == 0 {
        st
    } else {
        bind_pat(ps.last(), c, bind_pats(ps.drop_last(), c, st, tm), tm)
    }
}

pub open spec fn bind_fpats(fs: Seq<crate::ast::FieldPat>, c: bool, st: BState, tm: Seq<(String, Ty)>) -> BState
    decreases fs, 0nat,
{
    if fs.len() == 0 {
        st
    } else {
        match fs.last().pat {
            Some(p) => bind_pat(p, c, bind_fpats(fs.drop_last(), c, st, tm), tm),
            None => bind_fpats(fs.drop_last(), c, st, tm),
        }
    }
}

pub open spec fn bind_cparams(ps: Seq<crate::ast::ClosureParam>, st: BState, tm: Seq<(String, Ty)>) -> BState
    decreases ps.len(),
{
    if ps.len() == 0 {
        st
    } else {
        bind_pat(ps.last().pat, false, bind_cparams(ps.drop_last(), st, tm), tm)
    }
}

/// The check of an expression, from state `st`.
pub open spec fn chk_expr(e: Expr, st: BState, tm: Seq<(String, Ty)>) -> BState
    decreases e, 0nat,
{
    match e.kind {
        ExprKind::Path(p) => if p.segments@.len() > 0 {
            use_b(st, p.segments@[0].name@, e.span)
        } else {
            st
        },
        ExprKind::If { cond, then, else_ } => {
            let s1 = chk_expr(*cond, st, tm);
            let t = chk_block(then, (s1.0, Seq::empty()), tm);
            let el = chk_opt(else_, (s1.0, Seq::empty()), tm);
            (merged_all(s1.0, t.0, el.0), s1.1 + t.1 + el.1)
        },
        ExprKind::Match { scrutinee, arms } => chk_arms(arms@, chk_expr(*scrutinee, st, tm), tm),
        ExprKind::Block(b) => chk_block(b, st, tm),
        ExprKind::Return { value } => chk_opt(value, st, tm),
        ExprKind::Closure { params, body, .. } => pop_b(chk_expr(*body, bind_cparams(params@, push_b(st), tm), tm)),
        ExprKind::While { cond, body } => chk_block(body, chk_expr(*cond, st, tm), tm),
        ExprKind::For { pat, iter, body } => pop_b(chk_block(body, bind_pat(pat, false, push_b(chk_expr(*iter, st, tm)), tm), tm)),
        ExprKind::Loop(body) => chk_block(body, st, tm),
        ExprKind::Call { callee, args } => chk_args(args@, chk_expr(*callee, st, tm), tm),
        ExprKind::MethodCall { receiver, args, .. } => chk_exprs(args@, chk_expr(*receiver, st, tm), tm),
        ExprKind::Assign { target, rhs } => assign_target(*target, chk_expr(*rhs, st, tm)),
        ExprKind::Binary { lhs, rhs, .. } => chk_expr(*rhs, chk_expr(*lhs, st, tm), tm),
        ExprKind::CompoundAssign { target, rhs, .. } => chk_expr(*rhs, chk_expr(*target, st, tm), tm),
        ExprKind::Unary { expr, .. } => chk_expr(*expr, st, tm),
        ExprKind::Await(x) => chk_expr(*x, st, tm),
        ExprKind::Cast { expr, .. } => chk_expr(*expr, st, tm),
        ExprKind::Field { base, .. } => chk_expr(*base, st, tm),
        ExprKind::Index { base, .. } => chk_expr(*base, st, tm),
        ExprKind::ArrayLit(es) => chk_exprs(es@, st, tm),
        ExprKind::TupleLit(es) => chk_exprs(es@, st, tm),
        ExprKind::ArrayRepeat { elem, len } => chk_expr(*len, chk_expr(*elem, st, tm), tm),
        ExprKind::StructLit { fields, .. } => chk_fields(fields@, st, tm),
        ExprKind::TemplateLit { parts } => chk_parts(parts@, st, tm),
        _ => st,
    }
}

/// An assignment to `target`: checked where it names a binding.
pub open spec fn assign_target(target: Expr, st: BState) -> BState {
    match target.kind {
        ExprKind::Path(p) => if p.segments@.len() > 0 {
            assign_b(st, p.segments@[0].name@, target.span)
        } else {
            st
        },
        _ => st,
    }
}

/// A call argument: checked, then moved where it names a binding.
pub open spec fn move_arg(arg: Expr, st: BState) -> BState {
    match arg.kind {
        ExprKind::Path(p) => if p.segments@.len() > 0 {
            move_b(st, p.segments@[0].name@, arg.span)
        } else {
            st
        },
        _ => st,
    }
}

pub open spec fn chk_opt(x: Option<Box<Expr>>, st: BState, tm: Seq<(String, Ty)>) -> BState
    decreases x, 0nat,
{
    match x {
        Some(v) => chk_expr(*v, st, tm),
        None => st,
    }
}

pub open spec fn chk_exprs(es: Seq<Expr>, st: BState, tm: Seq<(String, Ty)>) -> BState
    decreases es, 0nat,
{
    if es.len() == 0 {
        st
    } else {
        chk_expr(es.last(), chk_exprs(es.drop_last(), st, tm), tm)
    }
}

pub open spec fn chk_args(es: Seq<Expr>, st: BState, tm: Seq<(String, Ty)>) -> BState
    decreases es, 0nat,
{
    if es.len() == 0 {
        st
    } else {
        move_arg(es.last(), chk_expr(es.last(), chk_args(es.drop_last(), st, tm), tm))
    }
}

pub open spec fn chk_fields(fs: Seq<crate::ast::FieldInit>, st: BState, tm: Seq<(String, Ty)>) -> BState
    decreases fs, 0nat,
{
    if fs.len() == 0 {
        st
    } else {
        match fs.last().value {
            Some(v) => chk_expr(v, chk_fields(fs.drop_last(), st, tm), tm),
            None => chk_fields(fs.drop_last(), st, tm),
        }
    }
}

pub open spec fn chk_parts(ps: Seq<TemplatePart>, st: BState, tm: Seq<(String, Ty)>) -> BState
    decreases ps, 0nat,
{
    if ps.len() == 0 {
        st
    } else {
        match ps.last() {
            TemplatePart::Expr(x) => chk_expr(*x, chk_parts(ps.drop_last(), st, tm), tm),
            TemplatePart::Str(_) => chk_parts(ps.drop_last(), st, tm),
        }
    }
}

/// Each arm in a scope of its own: its pattern bound, its guard and body checked.
pub open spec fn chk_arms(arms: Seq<crate::ast::MatchArm>, st: BState, tm: Seq<(String, Ty)>) -> BState
    decreases arms, 0nat,
{
    if arms.len() == 0 {
        st
    } else {
        let a = arms.last();
        pop_b(chk_expr(*a.body, chk_opt(a.guard, bind_pat(a.pattern, false, push_b(chk_arms(arms.drop_last(), st, tm)), tm), tm), tm))
    }
}

/// A block in a scope of its own.
pub open spec fn chk_block(b: Block, st: BState, tm: Seq<(String, Ty)>) -> BState
    decreases b, 0nat,
{
    pop_b(chk_opt(b.tail, chk_stmts(b.stmts@, push_b(st), tm), tm))
}

pub open spec fn chk_stmts(ss: Seq<Stmt>, st: BState, tm: Seq<(String, Ty)>) -> BState
    decreases ss, 0nat,
{
    if ss.len() == 0 {
        st
    } else {
        chk_stmt(ss.last(), chk_stmts(ss.drop_last(), st, tm), tm)
    }
}

pub open spec fn chk_stmt(s: Stmt, st: BState, tm: Seq<(String, Ty)>) -> BState
    decreases s, 0nat,
{
    match s {
        Stmt::Let(l) => bind_pat(
            l.pattern,
            false,
            match l.init {
                Some(x) => chk_expr(x, st, tm),
                None => st,
            },
            tm,
        ),
        Stmt::Expr(e, _) => chk_expr(e, st, tm),
        Stmt::Item(_) => st,
    }
}

/// The parameters of a function declared, in one scope.
pub open spec fn params_decl(ps: Seq<crate::ast::Param>, tm: Seq<(String, Ty)>) -> BState
    decreases ps.len(),
{
    if ps.len() == 0 {
        (seq![Seq::<BindingV>::empty()], Seq::empty())
    } else {
        let st = params_decl(ps.drop_last(), tm);
        (declare_b(st.0, ps.last().name@, copy_type(ty_of(tm, ps.last().name@)), false), st.1)
    }
}

/// The errors the check of a function reports.
pub open spec fn fn_errors(f: FnDef, tm: Seq<(String, Ty)>) -> Seq<(bool, Seq<char>, Span)> {
    chk_block(f.body, params_decl(f.params@, tm), tm).1
}

/// Runs the ownership check over one function body and appends its
/// errors: those of checking the body with the parameters declared.
pub fn check_fn(fn_def: &FnDef, ty_map: &Vec<(String, Ty)>, errors: &mut Vec<TypeError>)
    ensures
        errors_grow(old(errors)@, final(errors)@),
        errs_v(final(errors)@) == errs_v(old(errors)@) + fn_errors(*fn_def, ty_map@),
{
    let mut ctx = OwnershipCtx::new();
    let mut i: usize = 0;
    assert(errs_v(ctx.errs()) =~= Seq::<(bool, Seq<char>, Span)>::empty());
    assert(ctx.state() == params_decl(fn_def.params@.subrange(0, 0), ty_map@));
    while i < fn_def.params.len()
        invariant
            i <= fn_def.params@.len(),
            ctx.wf(),
            ctx.bindings().len() == 1,
            ctx.errs().len() == 0,
            ctx.state() == params_decl(fn_def.params@.subrange(0, i as int), ty_map@),
        decreases fn_def.params.len() - i,
    {
        let ty = lookup_ty(ty_map, fn_def.params[i].name.as_str());
        proof {
            let sub = fn_def.params@.subrange(0, i + 1);
            assert(sub.drop_last() =~= fn_def.params@.subrange(0, i as int));
            assert(sub.last() == fn_def.params@[i as int]);
        }
        ctx.declare(string_of(fn_def.params[i].name.as_str()), ty, false);
        i = i + 1;
    }
    assert(fn_def.params@.subrange(0, i as int) =~= fn_def.params@);
    check_block(&fn_def.body, &mut ctx, ty_map);
    let ghost before = errors@;
    let ghost added = ctx.errors@;
    errors.append(&mut ctx.errors);
    assert(errors@ =~= before + added);
    assert(errs_v(errors@) =~= errs_v(before) + errs_v(added));
}

fn check_opt(x: &Option<Box<Expr>>, ctx: &mut OwnershipCtx, ty_map: &Vec<(String, Ty)>)
    requires
        old(ctx).wf(),
    ensures
        checked(*old(ctx), *final(ctx)),
        final(ctx).state() == chk_opt(*x, old(ctx).state(), ty_map@),
    decreases x, 0nat,
{
    if let Some(v) = x {
        check_expr(v, ctx, ty_map);
    } else {
        assert(errors_grow(old(ctx).errs(), ctx.errs()));
    }
}

fn check_block(block: &Block, ctx: &mut OwnershipCtx, ty_map: &Vec<(String, Ty)>)
    requires
        old(ctx).wf(),
    ensures
        checked(*old(ctx), *final(ctx)),
        final(ctx).state() == chk_block(*block, old(ctx).state(), ty_map@),
    decreases block, 0nat,
{
    ctx.push_scope();
    let ghost s0 = ctx.state();
    let mut i: usize = 0;
    assert(block.stmts@.subrange(0, 0) =~= Seq::<Stmt>::empty());
    while i < block.stmts.len()
        invariant
            i <= block.stmts@.len(),
            ctx.wf(),
            ctx.bindings().len() == old(ctx).bindings().len() + 1,
            errors_grow(old(ctx).errs(), ctx.errs()),
            ctx.state() == chk_stmts(block.stmts@.subrange(0, i as int), s0, ty_map@),
        decreases block.stmts.len() - i,
    {
        assert(decreases_to!(block => block.stmts@[i as int])) by {
            assert(decreases_to!(block => block.stmts));
            assert(decreases_to!(block.stmts => block.stmts@));
        }
        proof {
            let sub = block.stmts@.subrange(0, i + 1);
            assert(sub.drop_last() =~= block.stmts@.subrange(0, i as int));
            assert(sub.last() == block.stmts@[i as int]);
        }
        check_stmt(&block.stmts[i], ctx, ty_map);
        i = i + 1;
    }
    assert(block.stmts@.subrange(0, i as int) =~= block.stmts@);
    assert(decreases_to!(block => block.tail));
    check_opt(&block.tail, ctx, ty_map);
    ctx.pop_scope();
}

fn check_stmt(stmt: &Stmt, ctx: &mut OwnershipCtx, ty_map: &Vec<(String, Ty)>)
    requires
        old(ctx).wf(),
    ensures
        checked(*old(ctx), *final(ctx)),
        final(ctx).state() == chk_stmt(*stmt, old(ctx).state(), ty_map@),
    decreases stmt, 0nat,
{
    match stmt {
        Stmt::Let(let_stmt) => {
            if let Some(init) = &let_stmt.init {
                assert(decreases_to!(stmt => *init)) by {
                    assert(decreases_to!(stmt => stmt->Let_0));
                    assert(decreases_to!(stmt->Let_0 => stmt->Let_0.init));
                }
                check_expr(init, ctx, ty_map);
            }
            // Simple ident bindings only (mutable vs const).
            bind_pattern_decl(&let_stmt.pattern, ctx, ty_map, false);
        },
        Stmt::Expr(expr, _) => check_expr(expr, ctx, ty_map),
        Stmt::Item(_) => {},
    }
}

fn bind_pattern_decl(pat: &Pattern, ctx: &mut OwnershipCtx, ty_map: &Vec<(String, Ty)>, is_const: bool)
    requires
        old(ctx).wf(),
    ensures
        final(ctx).wf(),
        final(ctx).bindings().len() == old(ctx).bindings().len(),
        final(ctx).errs() == old(ctx).errs(),
        final(ctx).state() == bind_pat(*pat, is_const, old(ctx).state(), ty_map@),
    decreases pat,
{
    let ghost s0 = ctx.state();
    match &pat.kind {
        PatternKind::Ident { name, mutable } => {
            let ty = lookup_ty(ty_map, name.as_str());
            ctx.declare(string_of(name.as_str()), ty, !*mutable && is_const);
        },
        PatternKind::Tuple(elems) | PatternKind::Array(elems) | PatternKind::TupleStruct { elems, .. } => {
            let mut i: usize = 0;
            assert(elems@.subrange(0, 0) =~= Seq::<Pattern>::empty());
            while i < elems.len()
                invariant
                    i <= elems@.len(),
                    ctx.wf(),
                    ctx.bindings().len() == old(ctx).bindings().len(),
                    ctx.errs() == old(ctx).errs(),
                    decreases_to!(*pat => *elems),
                    ctx.state() == bind_pats(elems@.subrange(0, i as int), is_const, s0, ty_map@),
                decreases elems.len() - i,
            {
                assert(decreases_to!(*pat => elems@[i as int])) by {
                    assert(decreases_to!(*elems => elems@));
                }
                proof {
                    let sub = elems@.subrange(0, i + 1);
                    assert(sub.drop_last() =~= elems@.subrange(0, i as int));
                    assert(sub.last() == elems@[i as int]);
                }
                bind_pattern_decl(&elems[i], ctx, ty_map, is_const);
                i = i + 1;
            }
            assert(elems@.subrange(0, i as int) =~= elems@);
        },
        PatternKind::Struct { fields, .. } => {
            let mut i: usize = 0;
            assert(fields@.subrange(0, 0) =~= Seq::<crate::ast::FieldPat>::empty());
            while i < fields.len()
                invariant
                    i <= fields@.len(),
                    ctx.wf(),
                    ctx.bindings().len() == old(ctx).bindings().len(),
                    ctx.errs() == old(ctx).errs(),
                    decreases_to!(*pat => *fields),
                    ctx.state() == bind_fpats(fields@.subrange(0, i as int), is_const, s0, ty_map@),
                decreases fields.len() - i,
            {
                proof {
                    let sub = fields@.subrange(0, i + 1);
                    assert(sub.drop_last() =~= fields@.subrange(0, i as int));
                    assert(sub.last() == fields@[i as int]);
                }
                if let Some(p) = &fields[i].pat {
                    assert(decreases_to!(*pat => *p)) by {
                        assert(decreases_to!(*fields => fields@));
                        assert(decreases_to!(fields@ => fields@[i as int]));
                        assert(decreases_to!(fields@[i as int] => fields@[i as int].pat));
                    }
                    bind_pattern_decl(p, ctx, ty_map, is_const);
                }
                i = i + 1;
            }
            assert(fields@.subrange(0, i as int) =~= fields@);
        },
        PatternKind::Or(alts) => {
            if alts.len() > 0 {
                assert(decreases_to!(*pat => alts@[0])) by {
                    assert(decreases_to!(*pat => pat.kind));
                    assert(decreases_to!(pat.kind => pat.kind->Or_0));
                    assert(decreases_to!(pat.kind->Or_0 => pat.kind->Or_0@));
                }
                bind_pattern_decl(&alts[0], ctx, ty_map, is_const);
            }
        },
        _ => {},
    }
}

fn check_exprs(es: &Vec<Expr>, ctx: &mut OwnershipCtx, ty_map: &Vec<(String, Ty)>)
    requires
        old(ctx).wf(),
    ensures
        checked(*old(ctx), *final(ctx)),
        final(ctx).state() == chk_exprs(es@, old(ctx).state(), ty_map@),
    decreases es, 0nat,
{
    let ghost s0 = ctx.state();
    let mut i: usize = 0;
    assert(es@.subrange(0, 0) =~= Seq::<Expr>::empty());
    while i < es.len()
        invariant
            i <= es@.len(),
            checked(*old(ctx), *ctx),
            ctx.state() == chk_exprs(es@.subrange(0, i as int), s0, ty_map@),
        decreases es.len() - i,
    {
        assert(decreases_to!(es => es@[i as int])) by {
            assert(decreases_to!(es => es@));
        }
        proof {
            let sub = es@.subrange(0, i + 1);
            assert(sub.drop_last() =~= es@.subrange(0, i as int));
            assert(sub.last() == es@[i as int]);
        }
        check_expr(&es[i], ctx, ty_map);
        i = i + 1;
    }
    assert(es@.subrange(0, i as int) =~= es@);
}

/// Checks an expression: reads of moved bindings, moves into calls,
/// assignments to constants.
fn check_expr(expr: &Expr, ctx: &mut OwnershipCtx, ty_map: &Vec<(String, Ty)>)
    requires
        old(ctx).wf(),
    ensures
        checked(*old(ctx), *final(ctx)),
        final(ctx).state() == chk_expr(*expr, old(ctx).state(), ty_map@),
    decreases expr, 5nat,
{
    match &expr.kind {
        ExprKind::Path(path) => {
            if path.segments.len() > 0 {
                ctx.check_use(path.segments[0].name.as_str(), expr.span);
            }
        },
        ExprKind::If { .. } | ExprKind::Match { .. } | ExprKind::Block(_) | ExprKind::Return { .. }
        | ExprKind::Closure { .. } | ExprKind::While { .. } | ExprKind::For { .. } | ExprKind::Loop(_) => check_flow(expr, ctx, ty_map),
        ExprKind::IntLit(_) | ExprKind::FloatLit(_) | ExprKind::BoolLit(_) | ExprKind::StrLit(_) | ExprKind::CharLit(_)
        | ExprKind::Break { .. } | ExprKind::Continue | ExprKind::Range { .. } | ExprKind::MacroCall { .. } => {},
        _ => check_operands(expr, ctx, ty_map),
    }
}

#[verifier::rlimit(100)]
fn check_operands(expr: &Expr, ctx: &mut OwnershipCtx, ty_map: &Vec<(String, Ty)>)
    requires
        old(ctx).wf(),
        !(expr.kind is Path || expr.kind is If || expr.kind is Match || expr.kind is Block || expr.kind is Return
            || expr.kind is Closure || expr.kind is While || expr.kind is For || expr.kind is Loop || expr.kind is IntLit
            || expr.kind is FloatLit || expr.kind is BoolLit || expr.kind is StrLit || expr.kind is CharLit
            || expr.kind is Break || expr.kind is Continue || expr.kind is Range || expr.kind is MacroCall),
    ensures
        checked(*old(ctx), *final(ctx)),
        final(ctx).state() == chk_expr(*expr, old(ctx).state(), ty_map@),
    decreases expr, 4nat,
{
    assert(decreases_to!(expr => expr.kind));
    match &expr.kind {
        ExprKind::Call { callee, args } => {
            check_expr(callee, ctx, ty_map);
            let ghost s1 = ctx.state();
            let mut i: usize = 0;
            assert(args@.subrange(0, 0) =~= Seq::<Expr>::empty());
            while i < args.len()
                invariant
                    i <= args@.len(),
                    checked(*old(ctx), *ctx),
                    expr.kind == (ExprKind::Call { callee: *callee, args: *args }),
                    ctx.state() == chk_args(args@.subrange(0, i as int), s1, ty_map@),
                decreases args.len() - i,
            {
                let arg = &args[i];
                assert(decreases_to!(expr => *arg)) by {
                    assert(decreases_to!(expr => expr.kind));
                    assert(decreases_to!(expr.kind => expr.kind->Call_args));
                    assert(decreases_to!(expr.kind->Call_args => expr.kind->Call_args@));
                }
                proof {
                    let sub = args@.subrange(0, i + 1);
                    assert(sub.drop_last() =~= args@.subrange(0, i as int));
                    assert(sub.last() == args@[i as int]);
                }
                check_expr(arg, ctx, ty_map);
                // Passing a local by value moves it (unless Copy).
                if let ExprKind::Path(p) = &arg.kind {
                    if p.segments.len() > 0 {
                        ctx.mark_moved(p.segments[0].name.as_str(), arg.span);
                    }
                }
                i = i + 1;
            }
            assert(args@.subrange(0, i as int) =~= args@);
        },
        ExprKind::MethodCall { receiver, args, .. } => {
            check_expr(receiver, ctx, ty_map);
            assert(decreases_to!(expr.kind => expr.kind->MethodCall_args));
            check_exprs(args, ctx, ty_map);
        },
        ExprKind::Assign { target, rhs } => {
            check_expr(rhs, ctx, ty_map);
            if let ExprKind::Path(p) = &target.kind {
                if p.segments.len() > 0 {
                    ctx.check_assign(p.segments[0].name.as_str(), target.span);
                }
            }
        },
        ExprKind::Binary { lhs, rhs, .. } => {
            check_expr(lhs, ctx, ty_map);
            check_expr(rhs, ctx, ty_map);
        },
        ExprKind::CompoundAssign { target, rhs, .. } => {
            check_expr(target, ctx, ty_map);
            check_expr(rhs, ctx, ty_map);
        },
        ExprKind::Unary { expr: operand, .. } => check_expr(operand, ctx, ty_map),
        ExprKind::Await(operand) => check_expr(operand, ctx, ty_map),
        ExprKind::Cast { expr: operand, .. } => check_expr(operand, ctx, ty_map),
        ExprKind::Field { base, .. } => check_expr(base, ctx, ty_map),
        ExprKind::Index { base, .. } => check_expr(base, ctx, ty_map),
        ExprKind::ArrayLit(elems) => {
            assert(decreases_to!(expr.kind => expr.kind->ArrayLit_0));
            check_exprs(elems, ctx, ty_map);
        },
        ExprKind::TupleLit(elems) => {
            assert(decreases_to!(expr.kind => expr.kind->TupleLit_0));
            check_exprs(elems, ctx, ty_map);
        },
        ExprKind::ArrayRepeat { elem, len } => {
            check_expr(elem, ctx, ty_map);
            check_expr(len, ctx, ty_map);
        },
        ExprKind::StructLit { fields, .. } => {
            let ghost s0 = ctx.state();
            let mut i: usize = 0;
            assert(fields@.subrange(0, 0) =~= Seq::<crate::ast::FieldInit>::empty());
            while i < fields.len()
                invariant
                    i <= fields@.len(),
                    checked(*old(ctx), *ctx),
                    decreases_to!(expr => *fields),
                    ctx.state() == chk_fields(fields@.subrange(0, i as int), s0, ty_map@),
                decreases fields.len() - i,
            {
                proof {
                    let sub = fields@.subrange(0, i + 1);
                    assert(sub.drop_last() =~= fields@.subrange(0, i as int));
                    assert(sub.last() == fields@[i as int]);
                }
                if let Some(v) = &fields[i].value {
                    assert(decreases_to!(expr => *v)) by {
                        assert(decreases_to!(*fields => fields@));
                        assert(decreases_to!(fields@ => fields@[i as int]));
                        assert(decreases_to!(fields@[i as int] => fields@[i as int].value));
                    }
                    check_expr(v, ctx, ty_map);
                }
                i = i + 1;
            }
            assert(fields@.subrange(0, i as int) =~= fields@);
        },
        ExprKind::TemplateLit { parts } => {
            let ghost s0 = ctx.state();
            let mut i: usize = 0;
            assert(parts@.subrange(0, 0) =~= Seq::<TemplatePart>::empty());
            while i < parts.len()
                invariant
                    i <= parts@.len(),
                    checked(*old(ctx), *ctx),
                    decreases_to!(expr => *parts),
                    ctx.state() == chk_parts(parts@.subrange(0, i as int), s0, ty_map@),
                decreases parts.len() - i,
            {
                proof {
                    let sub = parts@.subrange(0, i + 1);
                    assert(sub.drop_last() =~= parts@.subrange(0, i as int));
                    assert(sub.last() == parts@[i as int]);
                }
                if let TemplatePart::Expr(e) = &parts[i] {
                    assert(decreases_to!(expr => **e)) by {
                        assert(decreases_to!(*parts => parts@));
                        assert(decreases_to!(parts@ => parts@[i as int]));
                    }
                    check_expr(e, ctx, ty_map);
                }
                i = i + 1;
            }
            assert(parts@.subrange(0, i as int) =~= parts@);
        },
        _ => {},
    }
}

#[verifier::rlimit(100)]
fn check_flow(expr: &Expr, ctx: &mut OwnershipCtx, ty_map: &Vec<(String, Ty)>)
    requires
        old(ctx).wf(),
        expr.kind is If || expr.kind is Match || expr.kind is Block || expr.kind is Return || expr.kind is Closure
            || expr.kind is While || expr.kind is For || expr.kind is Loop,
    ensures
        checked(*old(ctx), *final(ctx)),
        final(ctx).state() == chk_expr(*expr, old(ctx).state(), ty_map@),
    decreases expr, 4nat,
{
    assert(decreases_to!(expr => expr.kind));
    match &expr.kind {
        ExprKind::If { cond, then, else_ } => {
            check_expr(cond, ctx, ty_map);
            let ghost s1 = ctx.state();
            let mut then_ctx = ctx.branch();
            check_block(then, &mut then_ctx, ty_map);
            ctx.absorb(&mut then_ctx);
            let mut else_ctx = ctx.branch();
            assert(decreases_to!(expr.kind => expr.kind->If_else_));
            check_opt(else_, &mut else_ctx, ty_map);
            ctx.absorb(&mut else_ctx);
            ctx.merge_branch(&then_ctx, &else_ctx);
            assert(ctx.state().1 =~= s1.1 + chk_block(*then, (s1.0, Seq::empty()), ty_map@).1 + chk_opt(*else_, (s1.0, Seq::empty()), ty_map@).1);
        },
        ExprKind::Match { scrutinee, arms } => {
            check_expr(scrutinee, ctx, ty_map);
            let ghost s1 = ctx.state();
            let mut i: usize = 0;
            assert(arms@.subrange(0, 0) =~= Seq::<crate::ast::MatchArm>::empty());
            while i < arms.len()
                invariant
                    i <= arms@.len(),
                    checked(*old(ctx), *ctx),
                    decreases_to!(expr => *arms),
                    ctx.state() == chk_arms(arms@.subrange(0, i as int), s1, ty_map@),
                decreases arms.len() - i,
            {
                let arm = &arms[i];
                assert(decreases_to!(expr => *arm)) by {
                    assert(decreases_to!(*arms => arms@));
                }
                proof {
                    let sub = arms@.subrange(0, i + 1);
                    assert(sub.drop_last() =~= arms@.subrange(0, i as int));
                    assert(sub.last() == arms@[i as int]);
                }
                ctx.push_scope();
                bind_pattern_decl(&arm.pattern, ctx, ty_map, false);
                assert(decreases_to!(*arm => arm.guard));
                check_opt(&arm.guard, ctx, ty_map);
                check_expr(&arm.body, ctx, ty_map);
                ctx.pop_scope();
                i = i + 1;
            }
            assert(arms@.subrange(0, i as int) =~= arms@);
        },
        ExprKind::Block(b) => check_block(b, ctx, ty_map),
        ExprKind::Return { value } => {
            assert(decreases_to!(expr.kind => expr.kind->Return_value));
            check_opt(value, ctx, ty_map);
        },
        ExprKind::Closure { params, body, .. } => {
            ctx.push_scope();
            let ghost s1 = ctx.state();
            let mut i: usize = 0;
            assert(params@.subrange(0, 0) =~= Seq::<crate::ast::ClosureParam>::empty());
            while i < params.len()
                invariant
                    i <= params@.len(),
                    ctx.wf(),
                    ctx.bindings().len() == old(ctx).bindings().len() + 1,
                    errors_grow(old(ctx).errs(), ctx.errs()),
                    ctx.state() == bind_cparams(params@.subrange(0, i as int), s1, ty_map@),
                decreases params.len() - i,
            {
                proof {
                    let sub = params@.subrange(0, i + 1);
                    assert(sub.drop_last() =~= params@.subrange(0, i as int));
                    assert(sub.last() == params@[i as int]);
                }
                bind_pattern_decl(&params[i].pat, ctx, ty_map, false);
                i = i + 1;
            }
            assert(params@.subrange(0, i as int) =~= params@);
            check_expr(body, ctx, ty_map);
            ctx.pop_scope();
        },
        ExprKind::While { cond, body } => {
            check_expr(cond, ctx, ty_map);
            check_block(body, ctx, ty_map);
        },
        ExprKind::For { pat, iter, body } => {
            check_expr(iter, ctx, ty_map);
            ctx.push_scope();
            bind_pattern_decl(pat, ctx, ty_map, false);
            check_block(body, ctx, ty_map);
            ctx.pop_scope();
        },
        ExprKind::Loop(body) => check_block(body, ctx, ty_map),
        _ => {},
    }
}

} // verus!
