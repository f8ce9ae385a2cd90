//! Name resolution: every identifier reference mapped to its definition.

use vstd::prelude::*;
use indexmap::IndexMap;
use crate::token::Span;
use crate::typeck::error::TypeError;
use crate::text::string_of;

verus! {

/// A definition site.
#[derive(Debug, Clone, Copy, PartialEq, Eq, Hash, Structural)]
pub struct DefId(pub u32);

#[derive(Debug, Clone, Copy, PartialEq, Eq, Structural)]
pub enum DefKind {
    Fn,
    Struct,
    Enum,
    Trait,
    TypeAlias,
    Local { mutable: bool },
    Param,
    Const,
    Variant,
}

#[derive(Debug, Clone)]
pub struct DefInfo {
    pub name: String,
    pub span: Span,
    pub kind: DefKind,
}

/// The mathematical value of a [`DefInfo`].
pub struct DefInfoV {
    pub name: Seq<char>,
    pub span: Span,
    pub kind: DefKind,
}

impl View for DefInfo {
    type V = DefInfoV;

    open spec fn view(&self) -> DefInfoV {
        DefInfoV { name: self.name@, span: self.span, kind: self.kind }
    }
}

/// Inserting `(k, v)` into insertion-ordered entries: an equal key keeps
/// its place and takes `v`; otherwise the pair is appended.
pub open spec fn keyed_insert<K, V>(es: Seq<(K, V)>, k: K, v: V) -> Seq<(K, V)> {
    if exists|i: int| 0 <= i < es.len() && (#[trigger] es[i]).0 == k {
        let i = choose|i: int| 0 <= i < es.len() && (#[trigger] es[i]).0 == k;
        es.update(i, (k, v))
    } else {
        es.push((k, v))
    }
}

/// What a scope frame holds, in insertion order.
pub uninterp spec fn frame_entries(m: IndexMap<String, DefId>) -> Seq<(Seq<char>, DefId)>;

/// What a definition table holds, in insertion order.
pub uninterp spec fn def_entries(m: IndexMap<DefId, DefInfo>) -> Seq<(DefId, DefInfoV)>;

/// What a resolution map holds, in insertion order.
pub uninterp spec fn resolution_entries(m: IndexMap<Span, DefId>) -> Seq<(Span, DefId)>;

/// Wraps `IndexMap::new` for a scope frame: empty.
#[verifier::external_body]
fn frame_new() -> (m: IndexMap<String, DefId>)
    ensures
        frame_entries(m) == Seq::<(Seq<char>, DefId)>::empty(),
{
    IndexMap::new()
}

/// Wraps `IndexMap::insert` on a scope frame.
#[verifier::external_body]
fn frame_insert(m: &mut IndexMap<String, DefId>, k: String, v: DefId)
    ensures
        frame_entries(*final(m)) == keyed_insert(frame_entries(*old(m)), k@, v),
{
    m.insert(k, v);
}

/// Wraps `IndexMap::get` on a scope frame: the value under `k`, if any.
#[verifier::external_body]
fn frame_get(m: &IndexMap<String, DefId>, k: &str) -> (r: Option<DefId>)
    ensures
        match r {
            Some(v) => exists|i: int| 0 <= i < frame_entries(*m).len() && frame_entries(*m)[i] == (k@, v),
            None => forall|i: int| 0 <= i < frame_entries(*m).len() ==> (#[trigger] frame_entries(*m)[i]).0 != k@,
        },
{
    m.get(k).copied()
}

/// Wraps `IndexMap::new` for a definition table: empty.
#[verifier::external_body]
fn defs_new() -> (m: IndexMap<DefId, DefInfo>)
    ensures
        def_entries(m) == Seq::<(DefId, DefInfoV)>::empty(),
{
    IndexMap::new()
}

/// Wraps `IndexMap::insert` on a definition table.
#[verifier::external_body]
fn defs_insert(m: &mut IndexMap<DefId, DefInfo>, k: DefId, v: DefInfo)
    ensures
        def_entries(*final(m)) == keyed_insert(def_entries(*old(m)), k, v@),
{
    m.insert(k, v);
}

/// Wraps `IndexMap::new` for a resolution map: empty.
#[verifier::external_body]
fn resolution_new() -> (m: IndexMap<Span, DefId>)
    ensures
        resolution_entries(m) == Seq::<(Span, DefId)>::empty(),
{
    IndexMap::new()
}

/// Wraps `IndexMap::insert` on a resolution map.
#[verifier::external_body]
fn resolution_insert(m: &mut IndexMap<Span, DefId>, k: Span, v: DefId)
    ensures
        resolution_entries(*final(m)) == keyed_insert(resolution_entries(*old(m)), k, v),
{
    m.insert(k, v);
}

/// All definitions of a module, numbered in order.
#[derive(Debug)]
pub struct DefTable {
    pub defs: IndexMap<DefId, DefInfo>,
    next_id: u32,
}

impl DefTable {
    /// The definitions, in order.
    pub closed spec fn entries(&self) -> Seq<(DefId, DefInfoV)> {
        def_entries(self.defs)
    }

    pub closed spec fn next(&self) -> u32 {
        self.next_id
    }

    /// Ids are handed out in order: every entry's id is below the next.
    pub closed spec fn wf(&self) -> bool {
        forall|i: int| 0 <= i < def_entries(self.defs).len() ==> (#[trigger] def_entries(self.defs)[i]).0.0 < self.next_id
    }

    pub fn new() -> (t: DefTable)
        ensures
            t.wf(),
            t.next() == 0,
            t.entries() == Seq::<(DefId, DefInfoV)>::empty(),
    {
        DefTable { defs: defs_new(), next_id: 0 }
    }

    pub fn fresh(&mut self) -> (id: DefId)
        requires
            old(self).wf(),
            old(self).next() < u32::MAX,
        ensures
            final(self).wf(),
            id.0 == old(self).next(),
            final(self).next() == old(self).next() + 1,
            final(self).entries() == old(self).entries(),
    {
        let id = DefId(self.next_id);
        self.next_id = self.next_id + 1;
        id
    }

    /// Records a new definition under a fresh id.
    pub fn insert(&mut self, name: String, span: Span, kind: DefKind) -> (id: DefId)
        requires
            old(self).wf(),
            old(self).next() < u32::MAX,
        ensures
            final(self).wf(),
            id.0 == old(self).next(),
            final(self).next() == old(self).next() + 1,
            final(self).entries() == old(self).entries().push((id, DefInfoV { name: name@, span, kind })),
    {
        let id = self.fresh();
        let ghost es = def_entries(self.defs);
        let info = DefInfo { name, span, kind };
        defs_insert(&mut self.defs, id, info);
        proof {
            assert(!exists|i: int| 0 <= i < es.len() && (#[trigger] es[i]).0 == id);
        }
        id
    }
}

/// The lexical scope stack: one frame per block.
pub struct Scope {
    frames: Vec<IndexMap<String, DefId>>,
}

/// The definition `name` refers to: the innermost frame that has it.
pub open spec fn scope_lookup(frames: Seq<Seq<(Seq<char>, DefId)>>, name: Seq<char>) -> Option<DefId>
    decreases frames.len(),
{
    if frames.len() == 0 {
        None
    } else if exists|i: int| 0 <= i < frames.last().len() && (#[trigger] frames.last()[i]).0 == name {
        Some(frames.last()[choose|i: int| 0 <= i < frames.last().len() && (#[trigger] frames.last()[i]).0 == name].1)
    } else {
        scope_lookup(frames.drop_last(), name)
    }
}

/// No key occurs twice in `es`.
pub open spec fn unique_keys<K, V>(es: Seq<(K, V)>) -> bool {
    forall|i: int, j: int| 0 <= i < j < es.len() ==> (#[trigger] es[i]).0 != (#[trigger] es[j]).0
}

proof fn lemma_keyed_insert_unique<K, V>(es: Seq<(K, V)>, k: K, v: V)
    requires
        unique_keys(es),
    ensures
        unique_keys(keyed_insert(es, k, v)),
        forall|i: int| 0 <= i < keyed_insert(es, k, v).len() && (#[trigger] keyed_insert(es, k, v)[i]).0 == k
            ==> keyed_insert(es, k, v)[i].1 == v,
{
    let r = keyed_insert(es, k, v);
    if exists|i: int| 0 <= i < es.len() && (#[trigger] es[i]).0 == k {
        let p = choose|i: int| 0 <= i < es.len() && (#[trigger] es[i]).0 == k;
        assert forall|i: int, j: int| 0 <= i < j < r.len() implies (#[trigger] r[i]).0 != (#[trigger] r[j]).0 by {
            assert(es[i].0 != es[j].0);
        }
        assert forall|i: int| 0 <= i < r.len() && (#[trigger] r[i]).0 == k implies r[i].1 == v by {
            if i != p {
                assert(es[i].0 == k);
                if i < p {
                    assert(es[i].0 != es[p].0);
                } else {
                    assert(es[p].0 != es[i].0);
                }
            }
        }
    } else {
        assert forall|i: int, j: int| 0 <= i < j < r.len() implies (#[trigger] r[i]).0 != (#[trigger] r[j]).0 by {
            if j == es.len() {
                assert(r[i] == es[i]);
            }
        }
    }
}

impl Scope {
    /// No frame binds a name twice.
    pub closed spec fn wf(&self) -> bool {
        forall|i: int| 0 <= i < self.frames@.len() ==> unique_keys(#[trigger] frame_entries(self.frames@[i]))
    }

    /// The frames' contents, innermost last.
    pub closed spec fn frames_view(&self) -> Seq<Seq<(Seq<char>, DefId)>> {
        Seq::new(self.frames@.len(), |i: int| frame_entries(self.frames@[i]))
    }

    pub fn new() -> (s: Scope)
        ensures
            s.frames_view() == seq![Seq::<(Seq<char>, DefId)>::empty()],
            s.wf(),
    {
        let mut frames: Vec<IndexMap<String, DefId>> = Vec::new();
        frames.push(frame_new());
        let s = Scope { frames };
        assert(s.frames_view() =~= seq![Seq::<(Seq<char>, DefId)>::empty()]);
        s
    }

    pub fn push(&mut self)
        requires
            old(self).wf(),
        ensures
            final(self).wf(),
            final(self).frames_view().len() == old(self).frames_view().len() + 1,
            final(self).frames_view() == old(self).frames_view().push(Seq::<(Seq<char>, DefId)>::empty()),
    {
        self.frames.push(frame_new());
        assert(self.frames_view() =~= old(self).frames_view().push(Seq::<(Seq<char>, DefId)>::empty()));
    }

    pub fn pop(&mut self)
        requires
            old(self).wf(),
        ensures
            final(self).wf(),
            final(self).frames_view() == if old(self).frames_view().len() > 0 {
                old(self).frames_view().drop_last()
            } else {
                old(self).frames_view()
            },
    {
        if self.frames.len() > 0 {
            self.frames.pop();
            assert(self.frames_view() =~= old(self).frames_view().drop_last());
        }
    }

    /// Binds `name` in the innermost frame.
    pub fn define(&mut self, name: String, id: DefId)
        requires
            old(self).frames_view().len() > 0,
            old(self).wf(),
        ensures
            final(self).wf(),
            final(self).frames_view().len() == old(self).frames_view().len(),
            final(self).frames_view() == old(self).frames_view().update(
                old(self).frames_view().len() - 1,
                keyed_insert(old(self).frames_view().last(), name@, id),
            ),
    {
        let last = self.frames.len() - 1;
        let ghost nm = name@;
        proof {
            lemma_keyed_insert_unique(frame_entries(self.frames@[last as int]), nm, id);
        }
        frame_insert(&mut self.frames[last], name, id);
        assert forall|i: int| 0 <= i < self.frames@.len() implies unique_keys(#[trigger] frame_entries(self.frames@[i])) by {
            if i != last {
                assert(self.frames@[i] == old(self).frames@[i]);
            }
        }
        assert(self.frames_view() =~= old(self).frames_view().update(
            old(self).frames_view().len() - 1,
            keyed_insert(old(self).frames_view().last(), name@, id),
        ));
    }

    /// The definition `name` refers to, innermost frame first.
    pub fn lookup(&self, name: &str) -> (r: Option<DefId>)
        requires
            self.wf(),
        ensures
            r == scope_lookup(self.frames_view(), name@),
    {
        let ghost fv = self.frames_view();
        let mut i = self.frames.len();
        assert(fv.subrange(0, fv.len() as int) =~= fv);
        while i > 0
            invariant
                fv == self.frames_view(),
                i <= fv.len(),
                self.wf(),
                scope_lookup(fv, name@) == scope_lookup(fv.subrange(0, i as int), name@),
            decreases i,
        {
            let ghost sub = fv.subrange(0, i as int);
            assert(sub.drop_last() =~= fv.subrange(0, i - 1));
            assert(sub.last() == frame_entries(self.frames@[i - 1]));
            match frame_get(&self.frames[i - 1], name) {
                Some(id) => {
                    proof {
                        let es = frame_entries(self.frames@[i - 1]);
                        assert(unique_keys(es));
                        let j = choose|j: int| 0 <= j < es.len() && es[j] == (name@, id);
                        assert(es[j].0 == name@);
                        let c = choose|c: int| 0 <= c < es.len() && (#[trigger] es[c]).0 == name@;
                        if c != j {
                            if c < j {
                                assert(es[c].0 != es[j].0);
                            } else {
                                assert(es[j].0 != es[c].0);
                            }
                        }
                    }
                    return Some(id);
                },
                None => {},
            }
            i = i - 1;
        }
        proof {
            assert(fv.subrange(0, 0) =~= Seq::<Seq<(Seq<char>, DefId)>>::empty());
        }
        None
    }
}

/// The resolver's state.
pub struct Resolver {
    pub defs: DefTable,
    pub resolution_map: IndexMap<Span, DefId>,
    pub errors: Vec<TypeError>,
    scope: Scope,
}

impl Resolver {
    pub closed spec fn table(&self) -> DefTable {
        self.defs
    }

    /// The resolutions made so far, in order.
    pub closed spec fn resolutions(&self) -> Seq<(Span, DefId)> {
        resolution_entries(self.resolution_map)
    }

    pub closed spec fn errs(&self) -> Seq<TypeError> {
        self.errors@
    }

    /// There is a scope to define names in.
    pub closed spec fn scope_ok(&self) -> bool {
        self.scope.frames_view().len() > 0 && self.scope.wf()
    }

    /// No scope frame binds a name twice.
    pub closed spec fn scope_wf(&self) -> bool {
        self.scope.wf()
    }

    /// What the scope stack binds, innermost frame last.
    pub closed spec fn scopes(&self) -> Seq<Seq<(Seq<char>, DefId)>> {
        self.scope.frames_view()
    }

    pub fn new() -> (r: Resolver)
        ensures
            r.scope_ok(),
            r.table().wf(),
            r.table().next() == 0,
            r.resolutions() == Seq::<(Span, DefId)>::empty(),
            r.errs().len() == 0,
    {
        Resolver { defs: DefTable::new(), resolution_map: resolution_new(), errors: Vec::new(), scope: Scope::new() }
    }

    /// Resolves `name` at `span`: records the resolution, or reports an
    /// unresolved name.
    pub fn resolve_name(&mut self, name: &str, span: Span) -> (r: Option<DefId>)
        requires
            old(self).scope_ok(),
        ensures
            r == scope_lookup(old(self).scopes(), name@),
            final(self).scope_ok(),
            final(self).scopes() == old(self).scopes(),
            match r {
                Some(id) => final(self).resolutions() == keyed_insert(old(self).resolutions(), span, id)
                    && final(self).errs() == old(self).errs(),
                None => final(self).resolutions() == old(self).resolutions()
                    && final(self).errs().len() == old(self).errs().len() + 1
                    && (final(self).errs().last() matches TypeError::UnresolvedName { name: n, span: sp } && n@ == name@ && sp == span),
            },
    {
        match self.scope.lookup(name) {
            Some(id) => {
                resolution_insert(&mut self.resolution_map, span, id);
                Some(id)
            },
            None => {
                self.errors.push(TypeError::UnresolvedName { name: string_of(name), span });
                None
            },
        }
    }

    /// Defines a local binding in the current scope.
    pub fn define_local(&mut self, name: String, span: Span, mutable: bool) -> (id: DefId)
        requires
            old(self).scope_ok(),
            old(self).table().wf(),
            old(self).table().next() < u32::MAX,
        ensures
            final(self).scope_ok(),
            final(self).table().wf(),
            id.0 == old(self).table().next(),
            final(self).table().entries() == old(self).table().entries().push(
                (id, DefInfoV { name: name@, span, kind: DefKind::Local { mutable } }),
            ),
    {
        let id = self.defs.insert(name.clone(), span, DefKind::Local { mutable });
        self.scope.define(name, id);
        id
    }

    pub fn push_scope(&mut self)
        requires
            old(self).scope_wf(),
        ensures
            final(self).scope_ok(),
            final(self).scopes() == old(self).scopes().push(Seq::<(Seq<char>, DefId)>::empty()),
    {
        self.scope.push();
    }

    /// Leaves the innermost scope.
    pub fn pop_scope(&mut self)
        requires
            old(self).scope_wf(),
        ensures
            final(self).scope_wf(),
            old(self).scopes().len() > 0 ==> final(self).scopes() == old(self).scopes().drop_last(),
            old(self).scopes().len() == 0 ==> final(self).scopes() == old(self).scopes(),
    {
        self.scope.pop();
    }
}

} // verus!
