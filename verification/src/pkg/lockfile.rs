//! `selvr.lock`: the resolved version, registry and checksum of every
//! dependency, for reproducible builds.  Reading and writing the JSON file
//! is done by the caller; this is the lockfile's own logic.

use vstd::prelude::*;
use crate::target::target::copy_strings;
use crate::text::{str_eq, seq_lt, lemma_seq_lt_total, lemma_seq_lt_trans, lemma_seq_lt_irrefl};

verus! {

/// The full lockfile.
#[derive(Debug, Clone)]
pub struct Lockfile {
    pub version: u32,
    pub packages: Vec<LockedPackage>,
}

/// One locked package.
#[derive(Debug, Clone, PartialEq, Eq)]
pub struct LockedPackage {
    pub name: String,
    pub version: String,
    pub registry: String,
    pub checksum: String,
    /// `name@version` strings.
    pub dependencies: Vec<String>,
}

/// The mathematical value of a [`LockedPackage`].
pub struct LockedPackageV {
    pub name: Seq<char>,
    pub version: Seq<char>,
    pub registry: Seq<char>,
    pub checksum: Seq<char>,
    pub dependencies: Seq<Seq<char>>,
}

impl View for LockedPackage {
    type V = LockedPackageV;

    open spec fn view(&self) -> LockedPackageV {
        LockedPackageV {
            name: self.name@,
            version: self.version@,
            registry: self.registry@,
            checksum: self.checksum@,
            dependencies: self.dependencies@.map_values(|d: String| d@),
        }
    }
}

impl LockedPackage {
    /// A copy of the entry.
    pub fn duplicate(&self) -> (r: LockedPackage)
        ensures
            r@ == self@,
    {
        LockedPackage {
            name: self.name.clone(),
            version: self.version.clone(),
            registry: self.registry.clone(),
            checksum: self.checksum.clone(),
            dependencies: copy_strings(&self.dependencies),
        }
    }
}

/// The position of the first package named `n`.
pub open spec fn first_named(ps: Seq<LockedPackageV>, n: Seq<char>) -> Option<int>
    decreases ps.len(),
{
    if ps.len() == 0 {
        None
    } else if ps[0].name == n {
        Some(0)
    } else {
        match first_named(ps.drop_first(), n) {
            Some(i) => Some(i + 1),
            None => None,
        }
    }
}

/// Inserting or replacing: the first package named like `p` is replaced by
/// it, or it is appended.
pub open spec fn upsert_spec(ps: Seq<LockedPackageV>, p: LockedPackageV) -> Seq<LockedPackageV> {
    match first_named(ps, p.name) {
        Some(i) => ps.update(i, p),
        None => ps.push(p),
    }
}

/// The packages not named `n`, in order.
pub open spec fn without(ps: Seq<LockedPackageV>, n: Seq<char>) -> Seq<LockedPackageV> {
    ps.filter(|p: LockedPackageV| p.name != n)
}

/// Names never decrease along `ps`.
pub open spec fn sorted_by_name(ps: Seq<LockedPackageV>) -> bool {
    forall|i: int, j: int| 0 <= i < j < ps.len() ==> !seq_lt(#[trigger] ps[j].name, #[trigger] ps[i].name)
}

pub(crate) proof fn lemma_first_named_props(ps: Seq<LockedPackageV>, n: Seq<char>)
    ensures
        match first_named(ps, n) {
            Some(i) => 0 <= i < ps.len() && ps[i].name == n && forall|j: int| 0 <= j < i ==> ps[j].name != n,
            None => forall|j: int| 0 <= j < ps.len() ==> ps[j].name != n,
        },
    decreases ps.len(),
{
    if ps.len() > 0 {
        lemma_first_named_props(ps.drop_first(), n);
        if ps[0].name != n {
            match first_named(ps.drop_first(), n) {
                Some(i) => {
                    assert forall|j: int| 0 <= j < i + 1 implies ps[j].name != n by {
                        if j > 0 {
                            assert(ps[j] == ps.drop_first()[j - 1]);
                        }
                    }
                },
                None => {
                    assert forall|j: int| 0 <= j < ps.len() implies ps[j].name != n by {
                        if j > 0 {
                            assert(ps[j] == ps.drop_first()[j - 1]);
                        }
                    }
                },
            }
        }
    }
}

pub(crate) proof fn lemma_first_named_at(ps: Seq<LockedPackageV>, n: Seq<char>, i: int)
    requires
        0 <= i < ps.len(),
        ps[i].name == n,
        forall|j: int| 0 <= j < i ==> ps[j].name != n,
    ensures
        first_named(ps, n) == Some(i),
{
    lemma_first_named_props(ps, n);
    match first_named(ps, n) {
        Some(k) => {
            assert(k == i);
        },
        None => {},
    }
}

pub(crate) proof fn lemma_first_named_none(ps: Seq<LockedPackageV>, n: Seq<char>)
    requires
        forall|j: int| 0 <= j < ps.len() ==> ps[j].name != n,
    ensures
        first_named(ps, n) is None,
{
    lemma_first_named_props(ps, n);
}

impl Lockfile {
    /// The packages, in order.
    pub open spec fn packages_view(&self) -> Seq<LockedPackageV> {
        self.packages@.map_values(|p: LockedPackage| p@)
    }

    /// A new, empty lockfile of format version 1.
    pub fn new() -> (l: Lockfile)
        ensures
            l.version == 1,
            l.packages@.len() == 0,
    {
        Lockfile { version: 1, packages: Vec::new() }
    }

    /// The first package named `name`.
    pub fn get(&self, name: &str) -> (r: Option<&LockedPackage>)
        ensures
            match first_named(self.packages_view(), name@) {
                Some(i) => r matches Some(p) && *p == self.packages@[i],
                None => r is None,
            },
    {
        let ghost ps = self.packages_view();
        let mut i: usize = 0;
        while i < self.packages.len()
            invariant
                ps == self.packages_view(),
                i <= ps.len(),
                forall|j: int| 0 <= j < i ==> ps[j].name != name@,
            decreases self.packages.len() - i,
        {
            if str_eq(self.packages[i].name.as_str(), name) {
                proof {
                    lemma_first_named_at(ps, name@, i as int);
                }
                return Some(&self.packages[i]);
            }
            i = i + 1;
        }
        proof {
            lemma_first_named_none(ps, name@);
        }
        None
    }

    /// Inserts `pkg`, or replaces the first package of its name.
    pub fn upsert(&mut self, pkg: LockedPackage)
        ensures
            final(self).version == old(self).version,
            final(self).packages_view() == upsert_spec(old(self).packages_view(), pkg@),
    {
        let ghost ps = self.packages_view();
        let mut i: usize = 0;
        while i < self.packages.len()
            invariant
                ps == self.packages_view(),
                ps == old(self).packages_view(),
                self.version == old(self).version,
                i <= ps.len(),
                forall|j: int| 0 <= j < i ==> ps[j].name != pkg.name@,
            decreases self.packages.len() - i,
        {
            if str_eq(self.packages[i].name.as_str(), pkg.name.as_str()) {
                proof {
                    lemma_first_named_at(ps, pkg.name@, i as int);
                }
                let ghost pv = pkg@;
                self.packages.set(i, pkg);
                assert(self.packages_view() =~= ps.update(i as int, pv));
                return;
            }
            i = i + 1;
        }
        proof {
            lemma_first_named_none(ps, pkg.name@);
        }
        let ghost pv = pkg@;
        self.packages.push(pkg);
        assert(self.packages_view() =~= ps.push(pv));
    }

    /// Removes every package named `name`.
    pub fn remove(&mut self, name: &str)
        ensures
            final(self).version == old(self).version,
            final(self).packages_view() == without(old(self).packages_view(), name@),
    {
        let ghost ps = self.packages_view();
        let mut kept: Vec<LockedPackage> = Vec::new();
        let mut old_pkgs: Vec<LockedPackage> = Vec::new();
        std::mem::swap(&mut old_pkgs, &mut self.packages);
        let mut rev: Vec<LockedPackage> = Vec::new();
        while old_pkgs.len() > 0
            invariant
                ps == old_pkgs@.map_values(|p: LockedPackage| p@) + rev@.reverse().map_values(|p: LockedPackage| p@),
            decreases old_pkgs.len(),
        {
            let p = old_pkgs.pop().unwrap();
            rev.push(p);
            assert(ps =~= old_pkgs@.map_values(|p: LockedPackage| p@) + rev@.reverse().map_values(|p: LockedPackage| p@));
        }
        assert(ps =~= rev@.reverse().map_values(|p: LockedPackage| p@));
        while rev.len() > 0
            invariant
                ps == kept_prefix(ps, rev@.len() as int) + rev@.reverse().map_values(|p: LockedPackage| p@),
                rev@.len() <= ps.len(),
                kept@.map_values(|p: LockedPackage| p@) == without(kept_prefix(ps, rev@.len() as int), name@),
            decreases rev.len(),
        {
            let p = rev.pop().unwrap();
            let ghost pre = kept_prefix(ps, rev@.len() as int + 1);
            let ghost pv = p@;
            proof {
                assert(kept_prefix(ps, rev@.len() as int) =~= pre.push(pv)) by {
                    assert(ps =~= pre + (rev@.push(p)).reverse().map_values(|q: LockedPackage| q@));
                    assert((rev@.push(p)).reverse().map_values(|q: LockedPackage| q@) =~= seq![pv] + rev@.reverse().map_values(|q: LockedPackage| q@));
                }
                assert(pre.push(pv).drop_last() =~= pre);
                assert(ps =~= kept_prefix(ps, rev@.len() as int) + rev@.reverse().map_values(|p: LockedPackage| p@)) by {
                    assert(ps =~= pre + (rev@.push(p)).reverse().map_values(|q: LockedPackage| q@));
                    assert((rev@.push(p)).reverse().map_values(|q: LockedPackage| q@) =~= seq![pv] + rev@.reverse().map_values(|q: LockedPackage| q@));
                }
            }
            if !str_eq(p.name.as_str(), name) {
                kept.push(p);
                proof {
                    let f = |q: LockedPackageV| q.name != name@;
                    assert(pre.push(pv).filter(f) == pre.filter(f).push(pv)) by {
                        reveal(Seq::filter);
                        assert(pre.push(pv).drop_last() =~= pre);
                    }
                    assert(kept@.map_values(|q: LockedPackage| q@) =~= pre.filter(f).push(pv));
                }
            } else {
                proof {
                    let f = |q: LockedPackageV| q.name != name@;
                    assert(pre.push(pv).filter(f) == pre.filter(f)) by {
                        reveal(Seq::filter);
                        assert(pre.push(pv).drop_last() =~= pre);
                    }
                }
            }
        }
        assert(kept_prefix(ps, 0) =~= ps);
        self.packages = kept;
    }

    /// Sorts the packages by name, stably, for deterministic diffs.
    pub fn sort(&mut self)
        ensures
            final(self).version == old(self).version,
            stable_sorted(old(self).packages_view(), final(self).packages_view()),
    {
        let ghost ps = self.packages_view();
        let mut old_pkgs: Vec<LockedPackage> = Vec::new();
        std::mem::swap(&mut old_pkgs, &mut self.packages);
        let mut rev: Vec<LockedPackage> = Vec::new();
        while old_pkgs.len() > 0
            invariant
                ps == old_pkgs@.map_values(|p: LockedPackage| p@) + rev@.reverse().map_values(|p: LockedPackage| p@),
            decreases old_pkgs.len(),
        {
            let p = old_pkgs.pop().unwrap();
            rev.push(p);
            assert(ps =~= old_pkgs@.map_values(|p: LockedPackage| p@) + rev@.reverse().map_values(|p: LockedPackage| p@));
        }
        assert(ps =~= rev@.reverse().map_values(|p: LockedPackage| p@));
        let mut out: Vec<LockedPackage> = Vec::new();
        assert(kept_prefix(ps, ps.len() as int) =~= Seq::<LockedPackageV>::empty());
        assert(out@.map_values(|p: LockedPackage| p@) =~= Seq::<LockedPackageV>::empty());
        while rev.len() > 0
            invariant
                ps == kept_prefix(ps, rev@.len() as int) + rev@.reverse().map_values(|p: LockedPackage| p@),
                rev@.len() <= ps.len(),
                stable_sorted(kept_prefix(ps, rev@.len() as int), out@.map_values(|p: LockedPackage| p@)),
            decreases rev.len(),
        {
            let x = rev.pop().unwrap();
            let ghost pre = kept_prefix(ps, rev@.len() as int + 1);
            let ghost xv = x@;
            let ghost ov = out@.map_values(|p: LockedPackage| p@);
            proof {
                assert(kept_prefix(ps, rev@.len() as int) =~= pre.push(xv)) by {
                    assert(ps =~= pre + (rev@.push(x)).reverse().map_values(|q: LockedPackage| q@));
                    assert((rev@.push(x)).reverse().map_values(|q: LockedPackage| q@) =~= seq![xv] + rev@.reverse().map_values(|q: LockedPackage| q@));
                }
                assert(ps =~= kept_prefix(ps, rev@.len() as int) + rev@.reverse().map_values(|p: LockedPackage| p@)) by {
                    assert(ps =~= pre + (rev@.push(x)).reverse().map_values(|q: LockedPackage| q@));
                    assert((rev@.push(x)).reverse().map_values(|q: LockedPackage| q@) =~= seq![xv] + rev@.reverse().map_values(|q: LockedPackage| q@));
                }
            }
            // Insert after every package whose name is not greater.
            let mut p: usize = 0;
            while p < out.len() && !crate::text::str_lt(x.name.as_str(), out[p].name.as_str())
                invariant
                    ov == out@.map_values(|q: LockedPackage| q@),
                    xv == x@,
                    p <= ov.len(),
                    forall|j: int| 0 <= j < p ==> !seq_lt(xv.name, #[trigger] ov[j].name),
                decreases out.len() - p,
            {
                p = p + 1;
            }
            proof {
                assert forall|j: int| p <= j < ov.len() implies seq_lt(xv.name, #[trigger] ov[j].name) by {
                    if j > p {
                        let a = ov[p as int].name;
                        let b = ov[j].name;
                        assert(!seq_lt(b, a));
                        lemma_seq_lt_total(a, b);
                        if a != b {
                            lemma_seq_lt_trans(xv.name, a, b);
                        }
                    }
                }
            }
            out.insert(p, x);
            proof {
                let nv = out@.map_values(|q: LockedPackage| q@);
                assert(nv =~= ov.insert(p as int, xv));
                assert forall|i: int, j: int| 0 <= i < j < nv.len() implies !seq_lt(#[trigger] nv[j].name, #[trigger] nv[i].name) by {
                    if i < p && j == p {
                    } else if i == p {
                        let b = ov[j - 1].name;
                        if seq_lt(b, xv.name) {
                            lemma_seq_lt_trans(b, xv.name, b);
                            lemma_seq_lt_irrefl(b);
                        }
                    } else if i < p && j > p {
                        assert(!seq_lt(ov[j - 1].name, ov[i].name));
                    } else if j < p {
                    } else {
                        assert(!seq_lt(ov[j - 1].name, ov[i - 1].name));
                    }
                }
                assert forall|n: Seq<char>| #[trigger] named(nv, n) == named(pre.push(xv), n) by {
                    lemma_named_insert(ov, p as int, xv, n);
                    pre.lemma_filter_push(xv, |q: LockedPackageV| q.name == n);
                }
            }
        }
        assert(kept_prefix(ps, 0) =~= ps);
        self.packages = out;
    }
}

/// The packages named `n`, in order.
pub open spec fn named(ps: Seq<LockedPackageV>, n: Seq<char>) -> Seq<LockedPackageV> {
    ps.filter(|p: LockedPackageV| p.name == n)
}

/// Sorting by name, stably: names never decrease, and the packages of each
/// name keep their order.
pub open spec fn stable_sorted(old: Seq<LockedPackageV>, new: Seq<LockedPackageV>) -> bool {
    &&& sorted_by_name(new)
    &&& forall|n: Seq<char>| #[trigger] named(new, n) == named(old, n)
}

proof fn lemma_named_insert(out: Seq<LockedPackageV>, p: int, x: LockedPackageV, n: Seq<char>)
    requires
        0 <= p <= out.len(),
        forall|j: int| p <= j < out.len() ==> seq_lt(x.name, #[trigger] out[j].name),
    ensures
        named(out.insert(p, x), n) == if x.name == n { named(out, n).push(x) } else { named(out, n) },
{
    let f = |q: LockedPackageV| q.name == n;
    let a = out.subrange(0, p);
    let b = out.subrange(p, out.len() as int);
    assert(out =~= a + b);
    assert(out.insert(p, x) =~= a.push(x) + b);
    Seq::filter_distributes_over_add(a, b, f);
    Seq::filter_distributes_over_add(a.push(x), b, f);
    a.lemma_filter_push(x, f);
    if x.name == n {
        assert(b.filter(f) =~= Seq::<LockedPackageV>::empty()) by {
            b.lemma_filter_len(f);
            if b.filter(f).len() > 0 {
                b.lemma_filter_contains_rev(f, b.filter(f)[0]);
                b.filter_lemma(f);
                let k = choose|k: int| 0 <= k < b.len() && b[k] == b.filter(f)[0];
                assert(out[p + k] == b[k]);
                lemma_seq_lt_irrefl(x.name);
            }
        }
        assert(a.filter(f).push(x) + b.filter(f) =~= (a.filter(f) + b.filter(f)).push(x));
    }

}

/// All but the last `n` elements of `all`.
pub open spec fn kept_prefix<A>(all: Seq<A>, n: int) -> Seq<A> {
    all.subrange(0, all.len() - n)
}

impl Default for Lockfile {
    fn default() -> (l: Lockfile)
        ensures
            l.version == 1,
            l.packages@.len() == 0,
    {
        Lockfile::new()
    }
}

/// After an upsert, looking the package's name up finds that package.
pub proof fn lemma_get_after_upsert(ps: Seq<LockedPackageV>, p: LockedPackageV)
    ensures
        first_named(upsert_spec(ps, p), p.name) matches Some(i) && upsert_spec(ps, p)[i] == p,
{
    lemma_first_named_props(ps, p.name);
    let qs = upsert_spec(ps, p);
    match first_named(ps, p.name) {
        Some(i) => {
            assert forall|j: int| 0 <= j < i implies qs[j].name != p.name by {}
            lemma_first_named_at(qs, p.name, i);
        },
        None => {
            assert forall|j: int| 0 <= j < ps.len() implies qs[j].name != p.name by {}
            lemma_first_named_at(qs, p.name, ps.len() as int);
        },
    }
}

/// An upsert leaves the lookup of every other name as it was.
pub proof fn lemma_upsert_keeps_others(ps: Seq<LockedPackageV>, p: LockedPackageV, n: Seq<char>)
    requires
        n != p.name,
    ensures
        match first_named(ps, n) {
            Some(i) => first_named(upsert_spec(ps, p), n) matches Some(k) && upsert_spec(ps, p)[k] == ps[i],
            None => first_named(upsert_spec(ps, p), n) is None,
        },
{
    lemma_first_named_props(ps, n);
    lemma_first_named_props(ps, p.name);
    let qs = upsert_spec(ps, p);
    match first_named(ps, n) {
        Some(i) => {
            assert forall|j: int| 0 <= j < i implies qs[j].name != n by {
                if first_named(ps, p.name) == Some(j) {
                } else {
                    assert(qs[j] == ps[j]);
                }
            }
            assert(qs[i] == ps[i]);
            lemma_first_named_at(qs, n, i);
        },
        None => {
            assert forall|j: int| 0 <= j < qs.len() implies qs[j].name != n by {
                if j < ps.len() && first_named(ps, p.name) != Some(j) {
                    assert(qs[j] == ps[j]);
                }
            }
            lemma_first_named_none(qs, n);
        },
    }
}

/// After removing a name, looking it up finds nothing.
pub proof fn lemma_get_after_remove(ps: Seq<LockedPackageV>, n: Seq<char>)
    ensures
        first_named(without(ps, n), n) is None,
{
    let qs = without(ps, n);
    assert forall|j: int| 0 <= j < qs.len() implies qs[j].name != n by {
        ps.filter_lemma(|q: LockedPackageV| q.name != n);
    }
    lemma_first_named_none(qs, n);
}

} // verus!
