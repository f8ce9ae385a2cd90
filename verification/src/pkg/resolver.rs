//! Dependency resolution: each semver requirement of the manifest against
//! the versions available for it, newest first.

use vstd::prelude::*;
use semver::{Version, VersionReq};
use crate::pkg::error::PkgError;
use crate::pkg::lockfile::{LockedPackage, LockedPackageV};
use crate::pkg::manifest::{Manifest, Dependency};
use crate::pkg::registry::DEFAULT_REGISTRY;
use crate::text::{string_of, push_str, str_eq};

verus! {

#[verifier::external_type_specification]
#[verifier::external_body]
pub struct ExVersion(Version);

#[verifier::external_type_specification]
#[verifier::external_body]
pub struct ExVersionReq(VersionReq);

/// The error text of parsing `s` as a semver requirement; `None` when it
/// parses.
pub uninterp spec fn req_parse_error(s: Seq<char>) -> Option<Seq<char>>;

/// The error text of parsing `s` as a semver version; `None` when it parses.
pub uninterp spec fn version_parse_error(s: Seq<char>) -> Option<Seq<char>>;

/// Whether the version written `v` satisfies the requirement written `r`
/// (both parsing).
pub uninterp spec fn req_matches(r: Seq<char>, v: Seq<char>) -> bool;

/// A parsed requirement with the text it was parsed from.
pub struct Req {
    text: String,
    req: VersionReq,
}

/// A parsed version with the text it was parsed from.
pub struct Ver {
    text: String,
    version: Version,
}

impl Req {
    pub closed spec fn text(&self) -> Seq<char> {
        self.text@
    }
}

impl Ver {
    pub closed spec fn text(&self) -> Seq<char> {
        self.text@
    }
}

/// Wraps `semver::VersionReq::parse` (and the error's `Display`): the
/// requirement, kept with its text, or the error's message; named
/// `req_parse_error(s@)`.
#[verifier::external_body]
fn parse_req(s: &str) -> (r: Result<Req, String>)
    ensures
        match r {
            Ok(q) => req_parse_error(s@) is None && q.text() == s@,
            Err(m) => req_parse_error(s@) == Some(m@),
        },
{
    match VersionReq::parse(s) {
        Ok(req) => Ok(Req { text: s.to_string(), req }),
        Err(e) => Err(e.to_string()),
    }
}

/// Wraps `semver::Version::parse` (and the error's `Display`), named
/// `version_parse_error(s@)`.
#[verifier::external_body]
fn parse_version(s: &str) -> (r: Result<Ver, String>)
    ensures
        match r {
            Ok(v) => version_parse_error(s@) is None && v.text() == s@,
            Err(m) => version_parse_error(s@) == Some(m@),
        },
{
    match Version::parse(s) {
        Ok(version) => Ok(Ver { text: s.to_string(), version }),
        Err(e) => Err(e.to_string()),
    }
}

/// Wraps `semver::VersionReq::matches` on a requirement and a version that
/// were parsed from their texts, named `req_matches(text, text)`.
#[verifier::external_body]
fn matches(q: &Req, v: &Ver) -> (b: bool)
    ensures
        b == req_matches(q.text(), v.text()),
{
    q.req.matches(&v.version)
}

/// The versions offered for `name`: the first list under that name.
pub open spec fn offered(available: Seq<(String, Vec<String>)>, name: Seq<char>) -> Option<Seq<Seq<char>>>
    decreases available.len(),
{
    if available.len() == 0 {
        None
    } else if available[0].0@ == name {
        Some(available[0].1@.map_values(|v: String| v@))
    } else {
        offered(available.drop_first(), name)
    }
}

/// The first of `versions` that satisfies `req`; a version that does not
/// parse before one is found is an error.
pub open spec fn pick_from(name: Seq<char>, req: Seq<char>, versions: Seq<Seq<char>>) -> Result<Option<Seq<char>>, Seq<char>>
    decreases versions.len(),
{
    if versions.len() == 0 {
        Ok(None)
    } else {
        match version_parse_error(versions[0]) {
            Some(e) => Err("bad version "@ + versions[0] + " for "@ + name + ": "@ + e),
            None => if req_matches(req, versions[0]) {
                Ok(Some(versions[0]))
            } else {
                pick_from(name, req, versions.drop_first())
            },
        }
    }
}

pub open spec fn pick_spec(name: Seq<char>, req: Seq<char>, available: Seq<(String, Vec<String>)>) -> Result<Option<Seq<char>>, Seq<char>> {
    match offered(available, name) {
        None => Ok(None),
        Some(vs) => pick_from(name, req, vs),
    }
}

fn lookup_versions<'a>(available: &'a Vec<(String, Vec<String>)>, name: &str) -> (r: Option<&'a Vec<String>>)
    ensures
        match offered(available@, name@) {
            Some(vs) => r matches Some(v) && v@.map_values(|x: String| x@) == vs,
            None => r is None,
        },
{
    let mut i: usize = 0;
    assert(available@.subrange(0, available@.len() as int) =~= available@);
    while i < available.len()
        invariant
            i <= available@.len(),
            offered(available@, name@) == offered(available@.subrange(i as int, available@.len() as int), name@),
        decreases available.len() - i,
    {
        let ghost rest = available@.subrange(i as int, available@.len() as int);
        assert(rest.drop_first() =~= available@.subrange(i + 1, available@.len() as int));
        if str_eq(available[i].0.as_str(), name) {
            return Some(&available[i].1);
        }
        i = i + 1;
    }
    None
}

/// Picks the newest (first listed) version of `name` that satisfies `req`.
fn pick_version(name: &str, req: &Req, available: &Vec<(String, Vec<String>)>) -> (r: Result<Option<String>, PkgError>)
    ensures
        match pick_spec(name@, req.text(), available@) {
            Ok(Some(v)) => r matches Ok(Some(s)) && s@ == v,
            Ok(None) => r matches Ok(None),
            Err(m) => r matches Err(PkgError::Manifest(s)) && s@ == m,
        },
{
    let versions = match lookup_versions(available, name) {
        Some(v) => v,
        None => return Ok(None),
    };
    let ghost vs = versions@.map_values(|x: String| x@);
    assert(pick_spec(name@, req.text(), available@) == pick_from(name@, req.text(), vs));
    let mut i: usize = 0;
    assert(vs.subrange(0, vs.len() as int) =~= vs);
    while i < versions.len()
        invariant
            vs == versions@.map_values(|x: String| x@),
            pick_spec(name@, req.text(), available@) == pick_from(name@, req.text(), vs),
            i <= vs.len(),
            pick_from(name@, req.text(), vs) == pick_from(name@, req.text(), vs.subrange(i as int, vs.len() as int)),
        decreases versions.len() - i,
    {
        let ghost rest = vs.subrange(i as int, vs.len() as int);
        assert(rest.drop_first() =~= vs.subrange(i + 1, vs.len() as int));
        assert(rest[0] == versions@[i as int]@);
        let v_str = &versions[i];
        match parse_version(v_str.as_str()) {
            Err(e) => {
                let mut m = string_of("bad version ");
                push_str(&mut m, v_str.as_str());
                push_str(&mut m, " for ");
                push_str(&mut m, name);
                push_str(&mut m, ": ");
                push_str(&mut m, e.as_str());
                assert(pick_from(name@, req.text(), rest) == Err::<Option<Seq<char>>, Seq<char>>(m@));
                return Err(PkgError::Manifest(m));
            },
            Ok(v) => {
                if matches(req, &v) {
                    assert(pick_from(name@, req.text(), rest) == Ok::<Option<Seq<char>>, Seq<char>>(Some(v_str@)));
                    return Ok(Some(v_str.clone()));
                }
            },
        }
        i = i + 1;
    }
    Ok(None)
}

/// A resolved package, by name and version.
pub open spec fn locked_spec(name: Seq<char>, version: Seq<char>) -> LockedPackageV {
    LockedPackageV {
        name,
        version,
        registry: "https://pkg.selvr-lang.org"@,
        checksum: seq![],
        dependencies: seq![],
    }
}

/// Recording `name` at `version`: the first entry of that name is
/// replaced in place, or the pair is appended.
pub open spec fn record(res: Seq<(Seq<char>, Seq<char>)>, name: Seq<char>, version: Seq<char>) -> Seq<(Seq<char>, Seq<char>)>
    decreases res.len(),
{
    if res.len() == 0 {
        seq![(name, version)]
    } else if res[0].0 == name {
        res.update(0, (name, version))
    } else {
        seq![res[0]] + record(res.drop_first(), name, version)
    }
}

proof fn lemma_record_at(res: Seq<(Seq<char>, Seq<char>)>, name: Seq<char>, version: Seq<char>, i: int)
    requires
        0 <= i <= res.len(),
        forall|j: int| 0 <= j < i ==> (#[trigger] res[j]).0 != name,
    ensures
        record(res, name, version) == res.subrange(0, i) + record(res.subrange(i, res.len() as int), name, version),
    decreases i,
{
    if i == 0 {
        assert(res.subrange(0, res.len() as int) =~= res);
        assert(res.subrange(0, 0) + record(res, name, version) =~= record(res, name, version));
    } else {
        let t = res.drop_first();
        assert forall|j: int| 0 <= j < i - 1 implies (#[trigger] t[j]).0 != name by {
            assert(t[j] == res[j + 1]);
        }
        lemma_record_at(t, name, version, i - 1);
        assert(t.subrange(0, i - 1) =~= res.subrange(1, i));
        assert(t.subrange(i - 1, t.len() as int) =~= res.subrange(i, res.len() as int));
        assert(res.subrange(0, i) =~= seq![res[0]] + res.subrange(1, i));
    }
}

/// A resolution error, by its text.
pub enum ResolveError {
    /// `PkgError::Manifest` with this message.
    Manifest(Seq<char>),
    /// `PkgError::NotFound` for this name.
    NotFound(Seq<char>),
}

/// The executable error is the one described.
pub open spec fn is_error(e: PkgError, d: ResolveError) -> bool {
    match d {
        ResolveError::Manifest(m) => e matches PkgError::Manifest(s) && s@ == m,
        ResolveError::NotFound(n) => e matches PkgError::NotFound { name } && name@ == n,
    }
}

/// Resolving the first `k` dependencies: the (name, version) pairs, or the
/// first error met.
pub open spec fn resolve_prefix(deps: Seq<(String, Dependency)>, available: Seq<(String, Vec<String>)>, k: int) -> Result<Seq<(Seq<char>, Seq<char>)>, ResolveError>
    decreases k,
{
    if k <= 0 {
        Ok(seq![])
    } else {
        match resolve_prefix(deps, available, k - 1) {
            Err(e) => Err(e),
            Ok(res) => {
                let name = deps[k - 1].0@;
                let req = deps[k - 1].1.req_spec();
                match req_parse_error(req) {
                    Some(e) => Err(ResolveError::Manifest("bad version req for "@ + name + ": "@ + e)),
                    None => match pick_spec(name, req, available) {
                        Err(m) => Err(ResolveError::Manifest(m)),
                        Ok(None) => Err(ResolveError::NotFound(name)),
                        Ok(Some(v)) => Ok(record(res, name, v)),
                    },
                }
            },
        }
    }
}

proof fn lemma_resolve_err_stays(deps: Seq<(String, Dependency)>, available: Seq<(String, Vec<String>)>, k: int, m: int)
    requires
        0 <= k <= m,
        resolve_prefix(deps, available, k) is Err,
    ensures
        resolve_prefix(deps, available, m) == resolve_prefix(deps, available, k),
    decreases m - k,
{
    if m > k {
        lemma_resolve_err_stays(deps, available, k, m - 1);
    }
}

fn record_exec(res: &mut Vec<(String, String)>, name: &String, version: String)
    ensures
        final(res)@.map_values(|p: (String, String)| (p.0@, p.1@)) == record(old(res)@.map_values(|p: (String, String)| (p.0@, p.1@)), name@, version@),
{
    let ghost rv = old(res)@.map_values(|p: (String, String)| (p.0@, p.1@));
    let mut i: usize = 0;
    while i < res.len()
        invariant
            rv == res@.map_values(|p: (String, String)| (p.0@, p.1@)),
            rv == old(res)@.map_values(|p: (String, String)| (p.0@, p.1@)),
            i <= rv.len(),
            forall|j: int| 0 <= j < i ==> (#[trigger] rv[j]).0 != name@,
        decreases res.len() - i,
    {
        if str_eq(res[i].0.as_str(), name.as_str()) {
            assert(rv[i as int].0 == name@);
            let ghost vv = version@;
            res.set(i, (name.clone(), version));
            proof {
                lemma_record_at(rv, name@, vv, i as int);
                let tail = rv.subrange(i as int, rv.len() as int);
                assert(record(tail, name@, vv) == tail.update(0, (name@, vv)));
                assert(res@.map_values(|p: (String, String)| (p.0@, p.1@)) =~= rv.subrange(0, i as int) + tail.update(0, (name@, vv)));
            }
            return;
        }
        i = i + 1;
    }
    let ghost vv = version@;
    res.push((name.clone(), version));
    proof {
        lemma_record_at(rv, name@, vv, rv.len() as int);
        assert(rv.subrange(rv.len() as int, rv.len() as int) =~= Seq::<(Seq<char>, Seq<char>)>::empty());
        assert(res@.map_values(|p: (String, String)| (p.0@, p.1@)) =~= rv + seq![(name@, vv)]);
    }
}

/// Resolves the manifest's dependencies against the versions `available`
/// for each name (newest first): one locked package per dependency name,
/// at the newest version that satisfies its requirement.
pub fn resolve(manifest: &Manifest, available: &Vec<(String, Vec<String>)>) -> (r: Result<Vec<LockedPackage>, PkgError>)
    ensures
        match resolve_prefix(manifest.all_deps(), available@, manifest.all_deps().len() as int) {
            Ok(res) => r matches Ok(ps) && ps@.map_values(|p: LockedPackage| p@) == res.map_values(
                |nv: (Seq<char>, Seq<char>)| locked_spec(nv.0, nv.1),
            ),
            Err(d) => r matches Err(e) && is_error(e, d),
        },
{
    let deps = manifest.all_dependencies();
    let ghost all = manifest.all_deps();
    let mut resolution: Vec<(String, String)> = Vec::new();
    assert(resolution@.map_values(|p: (String, String)| (p.0@, p.1@)) =~= Seq::<(Seq<char>, Seq<char>)>::empty());
    let mut k: usize = 0;
    while k < deps.len()
        invariant
            all == manifest.all_deps(),
            deps@.len() == all.len(),
            forall|i: int| 0 <= i < deps@.len() ==> *(#[trigger] deps@[i]) == all[i],
            k <= all.len(),
            resolve_prefix(all, available@, k as int) == Ok::<Seq<(Seq<char>, Seq<char>)>, ResolveError>(
                resolution@.map_values(|p: (String, String)| (p.0@, p.1@)),
            ),
        decreases deps.len() - k,
    {
        let (name, dep) = deps[k];
        assert(all[k as int] == (*name, *dep));
        let req = match parse_req(dep.version_req()) {
            Ok(q) => q,
            Err(e) => {
                let mut m = string_of("bad version req for ");
                push_str(&mut m, name.as_str());
                push_str(&mut m, ": ");
                push_str(&mut m, e.as_str());
                proof {
                    lemma_resolve_err_stays(all, available@, k + 1, all.len() as int);
                }
                return Err(PkgError::Manifest(m));
            },
        };
        match pick_version(name.as_str(), &req, available) {
            Err(e) => {
                proof {
                    lemma_resolve_err_stays(all, available@, k + 1, all.len() as int);
                }
                return Err(e);
            },
            Ok(None) => {
                proof {
                    lemma_resolve_err_stays(all, available@, k + 1, all.len() as int);
                }
                return Err(PkgError::NotFound { name: name.clone() });
            },
            Ok(Some(candidate)) => {
                record_exec(&mut resolution, name, candidate);
            },
        }
        k = k + 1;
    }
    let ghost res = resolution@.map_values(|p: (String, String)| (p.0@, p.1@));
    let mut locked: Vec<LockedPackage> = Vec::new();
    let mut i: usize = 0;
    while i < resolution.len()
        invariant
            res == resolution@.map_values(|p: (String, String)| (p.0@, p.1@)),
            i <= res.len(),
            locked@.map_values(|p: LockedPackage| p@) == res.subrange(0, i as int).map_values(
                |nv: (Seq<char>, Seq<char>)| locked_spec(nv.0, nv.1),
            ),
        decreases resolution.len() - i,
    {
        let ghost nv = res[i as int];
        let pkg = LockedPackage {
            name: resolution[i].0.clone(),
            version: resolution[i].1.clone(),
            registry: string_of("https://pkg.selvr-lang.org"),
            checksum: String::new(),
            dependencies: Vec::new(),
        };
        assert(pkg.dependencies@.map_values(|d: String| d@) =~= Seq::<Seq<char>>::empty());
        assert(pkg@ == locked_spec(nv.0, nv.1));
        assert(res.subrange(0, i + 1) =~= res.subrange(0, i as int).push(nv));
        let ghost before = locked@.map_values(|p: LockedPackage| p@);
        let ghost pv = pkg@;
        locked.push(pkg);
        assert(locked@.map_values(|p: LockedPackage| p@) =~= before.push(pv));
        assert(res.subrange(0, i + 1).map_values(|nv: (Seq<char>, Seq<char>)| locked_spec(nv.0, nv.1))
            =~= res.subrange(0, i as int).map_values(|nv: (Seq<char>, Seq<char>)| locked_spec(nv.0, nv.1)).push(
            locked_spec(nv.0, nv.1),
        ));
        i = i + 1;
    }
    assert(res.subrange(0, i as int) =~= res);
    Ok(locked)
}

/// The names whose locked version no longer satisfies the manifest, among
/// the first `k` dependencies: missing from the lockfile, or locked at a
/// version that parses and does not match.  A requirement that does not
/// parse is skipped.
pub open spec fn stale_prefix(deps: Seq<(String, Dependency)>, locked: Seq<LockedPackageV>, k: int) -> Seq<Seq<char>>
    decreases k,
{
    if k <= 0 {
        seq![]
    } else {
        let rest = stale_prefix(deps, locked, k - 1);
        let name = deps[k - 1].0@;
        let req = deps[k - 1].1.req_spec();
        if req_parse_error(req) is Some {
            rest
        } else {
            match crate::pkg::lockfile::first_named(locked, name) {
                None => rest.push(name),
                Some(i) => if version_parse_error(locked[i].version) is None && !req_matches(req, locked[i].version) {
                    rest.push(name)
                } else {
                    rest
                },
            }
        }
    }
}

/// The manifest's dependencies that the lockfile no longer satisfies.
pub fn check_lockfile(manifest: &Manifest, locked: &[LockedPackage]) -> (stale: Vec<String>)
    ensures
        stale@.map_values(|s: String| s@) == stale_prefix(
            manifest.all_deps(),
            locked@.map_values(|p: LockedPackage| p@),
            manifest.all_deps().len() as int,
        ),
{
    let deps = manifest.all_dependencies();
    let ghost all = manifest.all_deps();
    let ghost lv = locked@.map_values(|p: LockedPackage| p@);
    let mut stale: Vec<String> = Vec::new();
    let mut k: usize = 0;
    while k < deps.len()
        invariant
            all == manifest.all_deps(),
            lv == locked@.map_values(|p: LockedPackage| p@),
            deps@.len() == all.len(),
            forall|i: int| 0 <= i < deps@.len() ==> *(#[trigger] deps@[i]) == all[i],
            k <= all.len(),
            stale@.map_values(|s: String| s@) == stale_prefix(all, lv, k as int),
        decreases deps.len() - k,
    {
        let (name, dep) = deps[k];
        assert(all[k as int] == (*name, *dep));
        let ghost before = stale@.map_values(|s: String| s@);
        let ghost pushed = before.push(name@);
        proof {
            crate::pkg::lockfile::lemma_first_named_props(lv, name@);
        }
        assert(stale_prefix(all, lv, k + 1) == {
            let req = all[k as int].1.req_spec();
            if req_parse_error(req) is Some {
                before
            } else {
                match crate::pkg::lockfile::first_named(lv, name@) {
                    None => pushed,
                    Some(i) => if version_parse_error(lv[i].version) is None && !req_matches(req, lv[i].version) {
                        pushed
                    } else {
                        before
                    },
                }
            }
        });
        if let Ok(req) = parse_req(dep.version_req()) {
            match find_locked(locked, name.as_str()) {
                Some(pkg) => {
                    if let Ok(v) = parse_version(pkg.version.as_str()) {
                        if !matches(&req, &v) {
                            stale.push(name.clone());
                            assert(stale@.map_values(|s: String| s@) =~= pushed);
                        }
                    }
                },
                None => {
                    stale.push(name.clone());
                    assert(stale@.map_values(|s: String| s@) =~= pushed);
                },
            }
        }
        k = k + 1;
    }
    stale
}

fn find_locked<'a>(locked: &'a [LockedPackage], name: &str) -> (r: Option<&'a LockedPackage>)
    ensures
        match crate::pkg::lockfile::first_named(locked@.map_values(|p: LockedPackage| p@), name@) {
            Some(i) => r matches Some(p) && *p == locked@[i],
            None => r is None,
        },
{
    let ghost ps = locked@.map_values(|p: LockedPackage| p@);
    let mut i: usize = 0;
    while i < locked.len()
        invariant
            ps == locked@.map_values(|p: LockedPackage| p@),
            i <= ps.len(),
            forall|j: int| 0 <= j < i ==> ps[j].name != name@,
        decreases locked.len() - i,
    {
        if str_eq(locked[i].name.as_str(), name) {
            proof {
                crate::pkg::lockfile::lemma_first_named_at(ps, name@, i as int);
            }
            return Some(&locked[i]);
        }
        i = i + 1;
    }
    proof {
        crate::pkg::lockfile::lemma_first_named_none(ps, name@);
    }
    None
}

} // verus!
