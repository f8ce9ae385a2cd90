//! The decisions and texts of the command-line tool: package specs, the
//! lock entries `install` writes, dependency edits, warnings about forced
//! targets, the test harness and the lint summary.  Reading and writing
//! files, and running programs, are the caller's part.

use vstd::prelude::*;
use crate::ast::{Module, Item};
use crate::ir::ir::Target;
use crate::pkg::lockfile::{LockedPackage, LockedPackageV, Lockfile, upsert_spec, stable_sorted};
use crate::pkg::manifest::{Manifest, Dependency};
use crate::pkg::registry::DEFAULT_REGISTRY;
use crate::target::target::{TargetMap, FnTargetV, FnTarget, record_at, record_count};
use crate::target::infer::join;
use crate::text::{string_of, push_str, push_char, chars_of, str_eq, int_str, i64_to_string, u64_to_string, nat_digits, has_prefix};

verus! {

// ── `selvr add name[@version]` ────────────────────────────────────────────────

/// `s` has its first `c` at `p`.
pub open spec fn first_at(s: Seq<char>, c: char, p: int) -> bool {
    0 <= p < s.len() && s[p] == c && forall|j: int| 0 <= j < p ==> s[j] != c
}

/// Splits `name@version` at its first `@`; a bare name asks for any
/// version (`*`).
pub fn split_package_spec(package: &str) -> (r: (String, String))
    ensures
        forall|p: int| first_at(package@, '@', p) ==> r.0@ == package@.subrange(0, p) && r.1@ == package@.subrange(p + 1, package@.len() as int),
        (forall|j: int| 0 <= j < package@.len() ==> package@[j] != '@') ==> r.0@ == package@ && r.1@ == "*"@,
{
    let cs = chars_of(package);
    let mut name = String::new();
    let mut i: usize = 0;
    while i < cs.len()
        invariant
            cs@ == package@,
            i <= cs@.len(),
            name@ == package@.subrange(0, i as int),
            forall|j: int| 0 <= j < i ==> package@[j] != '@',
        decreases cs.len() - i,
    {
        if cs[i] == '@' {
            let mut req = String::new();
            let mut k: usize = i + 1;
            while k < cs.len()
                invariant
                    cs@ == package@,
                    i < k <= cs@.len(),
                    req@ == package@.subrange(i + 1, k as int),
                decreases cs.len() - k,
            {
                push_char(&mut req, cs[k]);
                assert(package@.subrange(i + 1, k + 1) =~= package@.subrange(i + 1, k as int).push(cs@[k as int]));
                k = k + 1;
            }
            proof {
                assert forall|p: int| first_at(package@, '@', p) implies p == i by {
                    if p < i {
                    } else if p > i {
                        assert(package@[i as int] == '@');
                    }
                }
            }
            return (name, req);
        }
        push_char(&mut name, cs[i]);
        assert(package@.subrange(0, i + 1) =~= package@.subrange(0, i as int).push(cs@[i as int]));
        i = i + 1;
    }
    assert(package@.subrange(0, i as int) =~= package@);
    (name, string_of("*"))
}

// ── `selvr install` ───────────────────────────────────────────────────────────

/// `s` without its leading run of `c`.
pub open spec fn trim_leading(s: Seq<char>, c: char) -> Seq<char>
    decreases s.len(),
{
    if s.len() > 0 && s[0] == c {
        trim_leading(s.drop_first(), c)
    } else {
        s
    }
}

fn trim_leading_exec(s: &str, c: char) -> (r: String)
    ensures
        r@ == trim_leading(s@, c),
{
    let cs = chars_of(s);
    let mut i: usize = 0;
    assert(s@.subrange(0, s@.len() as int) =~= s@);
    while i < cs.len() && cs[i] == c
        invariant
            cs@ == s@,
            i <= cs@.len(),
            trim_leading(s@, c) == trim_leading(s@.subrange(i as int, s@.len() as int), c),
        decreases cs.len() - i,
    {
        assert(s@.subrange(i as int, s@.len() as int).drop_first() =~= s@.subrange(i + 1, s@.len() as int));
        i = i + 1;
    }
    let mut r = String::new();
    let mut k: usize = i;
    while k < cs.len()
        invariant
            cs@ == s@,
            i <= k <= cs@.len(),
            r@ == s@.subrange(i as int, k as int),
        decreases cs.len() - k,
    {
        push_char(&mut r, cs[k]);
        assert(s@.subrange(i as int, k + 1) =~= s@.subrange(i as int, k as int).push(cs@[k as int]));
        k = k + 1;
    }
    r
}

/// The lock entry `install` records for dependency `name`: a local path is
/// locked as written, anything else at its requirement with leading `^`
/// and `~` taken off, from the default registry, its checksum pending.
pub open spec fn install_entry(name: Seq<char>, dep: Dependency) -> LockedPackageV {
    match dep.path_spec() {
        Some(local) => LockedPackageV {
            name,
            version: dep.req_spec(),
            registry: "path:"@ + local,
            checksum: "local"@,
            dependencies: seq![],
        },
        None => LockedPackageV {
            name,
            version: trim_leading(trim_leading(dep.req_spec(), '^'), '~'),
            registry: DEFAULT_REGISTRY@,
            checksum: "pending"@,
            dependencies: seq![],
        },
    }
}

/// The lock entry for one dependency (see [`install_entry`]).
pub fn lock_entry(name: &str, dep: &Dependency) -> (p: LockedPackage)
    ensures
        p@ == install_entry(name@, *dep),
{
    let deps: Vec<String> = Vec::new();
    assert(deps@.map_values(|d: String| d@) =~= Seq::<Seq<char>>::empty());
    match dep.local_path() {
        Some(local) => {
            let mut reg = string_of("path:");
            push_str(&mut reg, local);
            LockedPackage {
                name: string_of(name),
                version: string_of(dep.version_req()),
                registry: reg,
                checksum: string_of("local"),
                dependencies: deps,
            }
        },
        None => {
            let a = trim_leading_exec(dep.version_req(), '^');
            let v = trim_leading_exec(a.as_str(), '~');
            LockedPackage {
                name: string_of(name),
                version: v,
                registry: string_of(DEFAULT_REGISTRY),
                checksum: string_of("pending"),
                dependencies: deps,
            }
        },
    }
}

/// `ps` with the entry of each of `deps` upserted in turn.
pub open spec fn upsert_all(ps: Seq<LockedPackageV>, deps: Seq<(String, Dependency)>) -> Seq<LockedPackageV>
    decreases deps.len(),
{
    if deps.len() == 0 {
        ps
    } else {
        upsert_spec(upsert_all(ps, deps.drop_last()), install_entry(deps.last().0@, deps.last().1))
    }
}

/// Locks every dependency of `manifest` into `lock` (each replacing an
/// earlier entry of its name), then sorts the lock by name.  Returns how
/// many dependencies were locked.
pub fn install_locks(manifest: &Manifest, lock: &mut Lockfile) -> (n: usize)
    ensures
        n == manifest.all_deps().len(),
        final(lock).version == old(lock).version,
        stable_sorted(upsert_all(old(lock).packages_view(), manifest.all_deps()), final(lock).packages_view()),
{
    let deps = manifest.all_dependencies();
    let ghost all = manifest.all_deps();
    let mut i: usize = 0;
    while i < deps.len()
        invariant
            deps@.len() == all.len(),
            all == manifest.all_deps(),
            forall|k: int| 0 <= k < deps@.len() ==> *(#[trigger] deps@[k]) == all[k],
            i <= deps@.len(),
            lock.version == old(lock).version,
            lock.packages_view() == upsert_all(old(lock).packages_view(), all.subrange(0, i as int)),
        decreases deps.len() - i,
    {
        let (name, dep) = deps[i];
        let p = lock_entry(name.as_str(), dep);
        lock.upsert(p);
        assert(all.subrange(0, i + 1).drop_last() =~= all.subrange(0, i as int));
        i = i + 1;
    }
    assert(all.subrange(0, i as int) =~= all);
    lock.sort();
    i
}

// ── `selvr add` / `selvr remove` on the dependency tables ─────────────────────

/// The first entry of `table` named `name` is at `p`.
pub open spec fn first_key(table: Seq<(String, Dependency)>, name: Seq<char>, p: int) -> bool {
    0 <= p < table.len() && table[p].0@ == name && forall|j: int| 0 <= j < p ==> (#[trigger] table[j]).0@ != name
}

/// Whether any entry of `table` is named `name`.
pub open spec fn has_entry(table: Seq<(String, Dependency)>, name: Seq<char>) -> bool {
    exists|i: int| 0 <= i < table.len() && (#[trigger] table[i]).0@ == name
}

/// `table` without the entries named `name`.
pub open spec fn table_without(table: Seq<(String, Dependency)>, name: Seq<char>) -> Seq<(String, Dependency)>
    decreases table.len(),
{
    if table.len() == 0 {
        seq![]
    } else {
        table_without(table.drop_last(), name) + if table.last().0@ == name {
            Seq::<(String, Dependency)>::empty()
        } else {
            seq![table.last()]
        }
    }
}

/// Sets `name` to `dep` in `table`: in place where it is already there,
/// else at the end.
fn insert_into(table: &mut Vec<(String, Dependency)>, name: String, dep: Dependency)
    ensures
        forall|p: int| first_key(old(table)@, name@, p) ==> final(table)@ == old(table)@.update(p, (old(table)@[p].0, dep)),
        !has_entry(old(table)@, name@) ==> final(table)@ == old(table)@.push((name, dep)),
{
    let mut i: usize = 0;
    while i < table.len()
        invariant
            table@ == old(table)@,
            i <= table@.len(),
            forall|j: int| 0 <= j < i ==> (#[trigger] table@[j]).0@ != name@,
        decreases table.len() - i,
    {
        if str_eq(table[i].0.as_str(), name.as_str()) {
            table[i].1 = dep;
            proof {
                assert forall|p: int| first_key(old(table)@, name@, p) implies p == i by {
                    if p > i {
                        assert(old(table)@[i as int].0@ == name@);
                    }
                }
                assert(table@ =~= old(table)@.update(i as int, (old(table)@[i as int].0, dep)));
            }
            return;
        }
        i = i + 1;
    }
    table.push((name, dep));
}

/// Removes the entries named `name` from `table`; says whether there was one.
fn remove_from(table: &mut Vec<(String, Dependency)>, name: &str) -> (found: bool)
    ensures
        found == has_entry(old(table)@, name@),
        final(table)@ == table_without(old(table)@, name@),
{
    let mut rest: Vec<(String, Dependency)> = Vec::new();
    std::mem::swap(&mut rest, table);
    let ghost orig = rest@;
    let mut rev: Vec<(String, Dependency)> = Vec::new();
    while rest.len() > 0
        invariant
            orig == rest@ + rev@.reverse(),
        decreases rest.len(),
    {
        let x = rest.pop().unwrap();
        let ghost before = rev@;
        rev.push(x);
        assert(rev@.reverse() =~= seq![x] + before.reverse());
        assert(orig =~= rest@ + rev@.reverse());
    }
    assert(orig =~= rev@.reverse());
    let mut found = false;
    while rev.len() > 0
        invariant
            rev@.len() <= orig.len(),
            orig.subrange(orig.len() - rev@.len(), orig.len() as int) == rev@.reverse(),
            table@ == table_without(orig.subrange(0, orig.len() - rev@.len()), name@),
            found == has_entry(orig.subrange(0, orig.len() - rev@.len()), name@),
        decreases rev.len(),
    {
        let ghost k = orig.len() - rev@.len();
        let ghost rv = rev@;
        let x = rev.pop().unwrap();
        proof {
            assert(rv =~= rev@.push(x));
            assert(rv.reverse() =~= seq![x] + rev@.reverse());
            assert(orig[k] == orig.subrange(k, orig.len() as int)[0]);
            assert(orig.subrange(k + 1, orig.len() as int) =~= orig.subrange(k, orig.len() as int).drop_first());
            assert(orig.subrange(orig.len() - rev@.len(), orig.len() as int) =~= rev@.reverse());
            let pre = orig.subrange(0, k + 1);
            assert(pre.drop_last() =~= orig.subrange(0, k));
            assert(pre.last() == x);
            if has_entry(orig.subrange(0, k), name@) {
                let j = choose|j: int| 0 <= j < k && (#[trigger] orig.subrange(0, k)[j]).0@ == name@;
                assert(pre[j] == orig.subrange(0, k)[j]);
            }
            if has_entry(pre, name@) && x.0@ != name@ {
                let j = choose|j: int| 0 <= j < k + 1 && (#[trigger] pre[j]).0@ == name@;
                assert(orig.subrange(0, k)[j] == pre[j]);
            }
        }
        if str_eq(x.0.as_str(), name) {
            found = true;
            assert(orig.subrange(0, k + 1)[k] == x);
        } else {
            table.push(x);
        }
    }
    assert(orig.subrange(0, orig.len() as int) =~= orig);
    found
}

/// Adds dependency `name` to the regular or the dev table (replacing an
/// earlier entry of that name in place).
pub fn add_dependency(manifest: &mut Manifest, name: String, dep: Dependency, dev: bool)
    ensures
        final(manifest).package == old(manifest).package,
        final(manifest).targets == old(manifest).targets,
        final(manifest).build == old(manifest).build,
        dev ==> final(manifest).dependencies == old(manifest).dependencies,
        !dev ==> final(manifest).dev_dependencies == old(manifest).dev_dependencies,
        ({
            let (t0, t1) = if dev {
                (old(manifest).dev_dependencies@, final(manifest).dev_dependencies@)
            } else {
                (old(manifest).dependencies@, final(manifest).dependencies@)
            };
            &&& forall|p: int| first_key(t0, name@, p) ==> t1 == t0.update(p, (t0[p].0, dep))
            &&& !has_entry(t0, name@) ==> t1 == t0.push((name, dep))
        }),
{
    if dev {
        insert_into(&mut manifest.dev_dependencies, name, dep);
    } else {
        insert_into(&mut manifest.dependencies, name, dep);
    }
}

/// Removes dependency `name` from both tables; says whether either had it.
pub fn remove_dependency(manifest: &mut Manifest, name: &str) -> (removed: bool)
    ensures
        removed == (has_entry(old(manifest).dependencies@, name@) || has_entry(old(manifest).dev_dependencies@, name@)),
        final(manifest).dependencies@ == table_without(old(manifest).dependencies@, name@),
        final(manifest).dev_dependencies@ == table_without(old(manifest).dev_dependencies@, name@),
        final(manifest).package == old(manifest).package,
        final(manifest).targets == old(manifest).targets,
        final(manifest).build == old(manifest).build,
{
    let a = remove_from(&mut manifest.dependencies, name);
    let b = remove_from(&mut manifest.dev_dependencies, name);
    a || b
}

// ── Warnings about forced targets ─────────────────────────────────────────────

/// The warning for a forced record whose score contradicts its target.
pub open spec fn target_warning(r: FnTargetV) -> Option<Seq<char>> {
    if r.forced && r.target == Target::Wasm && r.score < 0 {
        Some("warning: `"@ + r.name + "` is annotated `#[wasm]` but analysis score ("@ + int_str(r.score as int)
            + ") suggests it belongs in JS — remove #[wasm] or ensure it has no DOM calls"@)
    } else if r.forced && r.target == Target::Js && r.score > 50 {
        Some("warning: `"@ + r.name + "` is annotated `#[js]` but analysis score ("@ + int_str(r.score as int)
            + ") suggests it would benefit from WASM — consider removing #[js]"@)
    } else {
        None
    }
}

/// The warnings of records `es`, in order.
pub open spec fn target_warnings_spec(es: Seq<(Seq<char>, FnTargetV)>) -> Seq<Seq<char>>
    decreases es.len(),
{
    if es.len() == 0 {
        seq![]
    } else {
        target_warnings_spec(es.drop_last()) + match target_warning(es.last().1) {
            Some(w) => seq![w],
            None => seq![],
        }
    }
}

fn target_warning_exec(r: &FnTarget) -> (w: Option<String>)
    ensures
        match w {
            Some(t) => target_warning(r@) == Some(t@),
            None => target_warning(r@) is None,
        },
{
    if r.forced && r.target == Target::Wasm && r.score < 0 {
        let mut s = string_of("warning: `");
        push_str(&mut s, r.name.as_str());
        push_str(&mut s, "` is annotated `#[wasm]` but analysis score (");
        push_str(&mut s, i64_to_string(r.score as i64).as_str());
        push_str(&mut s, ") suggests it belongs in JS — remove #[wasm] or ensure it has no DOM calls");
        Some(s)
    } else if r.forced && r.target == Target::Js && r.score > 50 {
        let mut s = string_of("warning: `");
        push_str(&mut s, r.name.as_str());
        push_str(&mut s, "` is annotated `#[js]` but analysis score (");
        push_str(&mut s, i64_to_string(r.score as i64).as_str());
        push_str(&mut s, ") suggests it would benefit from WASM — consider removing #[js]");
        Some(s)
    } else {
        None
    }
}

/// The warnings about forced targets that the analysis contradicts: a
/// `#[wasm]` function scoring below zero, a `#[js]` one scoring above 50.
pub fn target_warnings(map: &TargetMap) -> (ws: Vec<String>)
    ensures
        ws@.map_values(|w: String| w@) == target_warnings_spec(map.entries()),
{
    let mut ws: Vec<String> = Vec::new();
    let n = record_count(map);
    let ghost es = map.entries();
    let mut j: usize = 0;
    while j < n
        invariant
            n == es.len(),
            es == map.entries(),
            j <= n,
            ws@.map_values(|w: String| w@) == target_warnings_spec(es.subrange(0, j as int)),
        decreases n - j,
    {
        let r = record_at(map, j);
        let ghost before = ws@;
        proof {
            let sub = es.subrange(0, j + 1);
            assert(sub.drop_last() =~= es.subrange(0, j as int));
        }
        match target_warning_exec(r) {
            Some(w) => {
                ws.push(w);
                assert(ws@.map_values(|w: String| w@) =~= before.map_values(|w: String| w@).push(ws@.last()@));
            },
            None => {},
        }
        j = j + 1;
    }
    assert(es.subrange(0, n as int) =~= es);
    ws
}

// ── `selvr test` ──────────────────────────────────────────────────────────────

/// Whether a function carries the `#[test]` attribute.
pub open spec fn is_test_fn(f: crate::ast::FnDef) -> bool {
    exists|i: int| 0 <= i < f.attrs@.len() && (#[trigger] f.attrs@[i]).name@ == "test"@
}

/// The names of the `#[test]` functions among `items`, in order.
pub open spec fn test_names(items: Seq<Item>) -> Seq<Seq<char>>
    decreases items.len(),
{
    if items.len() == 0 {
        seq![]
    } else {
        test_names(items.drop_last()) + match items.last() {
            Item::FnDef(f) => if is_test_fn(f) { seq![f.name@] } else { seq![] },
            _ => seq![],
        }
    }
}

fn has_test_attr(f: &crate::ast::FnDef) -> (b: bool)
    ensures
        b == is_test_fn(*f),
{
    let mut i: usize = 0;
    while i < f.attrs.len()
        invariant
            i <= f.attrs@.len(),
            forall|k: int| 0 <= k < i ==> (#[trigger] f.attrs@[k]).name@ != "test"@,
        decreases f.attrs.len() - i,
    {
        if str_eq(f.attrs[i].name.as_str(), "test") {
            return true;
        }
        i = i + 1;
    }
    false
}

/// The names of the `#[test]` functions of `module`, in order.
pub fn test_fn_names(module: &Module) -> (r: Vec<String>)
    ensures
        r@.map_values(|s: String| s@) == test_names(module.items@),
{
    let mut r: Vec<String> = Vec::new();
    let mut i: usize = 0;
    while i < module.items.len()
        invariant
            i <= module.items@.len(),
            r@.map_values(|s: String| s@) == test_names(module.items@.subrange(0, i as int)),
        decreases module.items.len() - i,
    {
        let ghost before = r@;
        proof {
            let sub = module.items@.subrange(0, i + 1);
            assert(sub.drop_last() =~= module.items@.subrange(0, i as int));
            assert(sub.last() == module.items@[i as int]);
        }
        if let Item::FnDef(f) = &module.items[i] {
            if has_test_attr(f) {
                r.push(f.name.clone());
                assert(r@.map_values(|s: String| s@) =~= before.map_values(|s: String| s@).push(f.name@));
            }
        }
        i = i + 1;
    }
    assert(module.items@.subrange(0, i as int) =~= module.items@);
    r
}

/// `t` occurs in `s`.
pub open spec fn contains(s: Seq<char>, t: Seq<char>) -> bool {
    exists|i: int| 0 <= i <= s.len() - t.len() && #[trigger] s.subrange(i, i + t.len()) == t
}

fn contains_exec(s: &str, t: &str) -> (b: bool)
    ensures
        b == contains(s@, t@),
{
    let sv = chars_of(s);
    let tv = chars_of(t);
    let slen = sv.len();
    if tv.len() > slen {
        return false;
    }
    let mut i: usize = 0;
    while i <= sv.len() - tv.len()
        invariant
            sv@ == s@,
            tv@ == t@,
            tv@.len() <= sv@.len(),
            slen == sv@.len(),
            i <= sv@.len() - tv@.len() + 1,
            forall|k: int| 0 <= k < i ==> #[trigger] s@.subrange(k, k + t@.len()) != t@,
        decreases sv.len() - tv.len() + 1 - i,
    {
        let mut j: usize = 0;
        let mut same = true;
        while j < tv.len()
            invariant
                sv@ == s@,
                tv@ == t@,
                i + tv@.len() <= sv@.len(),
                slen == sv@.len(),
                j <= tv@.len(),
                same == forall|m: int| 0 <= m < j ==> sv@[i + m] == tv@[m],
            decreases tv.len() - j,
        {
            assert(i + j < sv@.len());
            if sv[i + j] != tv[j] {
                same = false;
            }
            j = j + 1;
        }
        if same {
            assert(s@.subrange(i as int, i + t@.len()) =~= t@);
            return true;
        }
        assert(s@.subrange(i as int, i + t@.len()) != t@) by {
            let m = choose|m: int| 0 <= m < tv@.len() && !(sv@[i + m] == tv@[m]);
            assert(s@.subrange(i as int, i + t@.len())[m] == sv@[i + m]);
        }
        i = i + 1;
    }
    false
}

/// The line of the harness that runs test `name`.
pub open spec fn harness_line(name: Seq<char>) -> Seq<char> {
    "try { "@ + name + "(); __passed++; process.stdout.write('  ✓ "@ + name + "\\n'); }catch(e) { __failed++; process.stderr.write('  ✗ "@
        + name + ": ' + e.message + '\\n'); }\n"@
}

/// The harness lines of the tests `names` that `filter` keeps.
pub open spec fn harness_lines(names: Seq<Seq<char>>, filter: Option<Seq<char>>) -> Seq<char>
    decreases names.len(),
{
    if names.len() == 0 {
        seq![]
    } else {
        harness_lines(names.drop_last(), filter) + match filter {
            Some(f) => if contains(names.last(), f) { harness_line(names.last()) } else { seq![] },
            None => harness_line(names.last()),
        }
    }
}

/// The test harness appended to a compiled program: runs each test whose
/// name contains `filter` (all where there is none), counts passes and
/// failures, and exits non-zero on a failure.
pub fn test_harness(names: &Vec<String>, filter: Option<&str>) -> (s: String)
    ensures
        s@ == "\n// --- selvr test harness ---\nlet __passed = 0, __failed = 0;\n"@ + harness_lines(
            names@.map_values(|n: String| n@),
            match filter {
                Some(f) => Some(f@),
                None => None,
            },
        ) + "console.log(`\\n${__passed}/${__passed+__failed} tests passed.`);\nif (__failed > 0) process.exit(1);\n"@,
{
    let ghost fv = match filter {
        Some(f) => Some(f@),
        None => None,
    };
    let ghost nv = names@.map_values(|n: String| n@);
    let mut s = string_of("\n// --- selvr test harness ---\nlet __passed = 0, __failed = 0;\n");
    let ghost head = s@;
    let mut i: usize = 0;
    while i < names.len()
        invariant
            i <= names@.len(),
            nv == names@.map_values(|n: String| n@),
            fv == match filter {
                Some(f) => Some(f@),
                None => None::<Seq<char>>,
            },
            s@ == head + harness_lines(nv.subrange(0, i as int), fv),
        decreases names.len() - i,
    {
        let name = names[i].as_str();
        let keep = match filter {
            Some(f) => contains_exec(name, f),
            None => true,
        };
        if keep {
            push_str(&mut s, "try { ");
            push_str(&mut s, name);
            push_str(&mut s, "(); __passed++; process.stdout.write('  ✓ ");
            push_str(&mut s, name);
            push_str(&mut s, "\\n'); }catch(e) { __failed++; process.stderr.write('  ✗ ");
            push_str(&mut s, name);
            push_str(&mut s, ": ' + e.message + '\\n'); }\n");
        }
        proof {
            let sub = nv.subrange(0, i + 1);
            assert(sub.drop_last() =~= nv.subrange(0, i as int));
            assert(sub.last() == names@[i as int]@);
        }
        i = i + 1;
    }
    assert(nv.subrange(0, i as int) =~= nv);
    push_str(&mut s, "console.log(`\\n${__passed}/${__passed+__failed} tests passed.`);\nif (__failed > 0) process.exit(1);\n");
    s
}

// ── `selvr lint` ──────────────────────────────────────────────────────────────

/// The lint summary: the error count, then the warning count, each only
/// where it is not zero, joined by `, `; empty when both are zero.
pub open spec fn lint_summary_text(errors: nat, warnings: nat) -> Seq<char> {
    let e = if errors > 0 { nat_digits(errors) + " error(s)"@ } else { seq![] };
    let w = if warnings > 0 { nat_digits(warnings) + " warning(s)"@ } else { seq![] };
    if errors > 0 && warnings > 0 {
        e + ", "@ + w
    } else {
        e + w
    }
}

pub fn lint_summary(errors: u64, warnings: u64) -> (s: String)
    ensures
        s@ == lint_summary_text(errors as nat, warnings as nat),
{
    let mut s = String::new();
    if errors > 0 {
        push_str(&mut s, u64_to_string(errors).as_str());
        push_str(&mut s, " error(s)");
    }
    if errors > 0 && warnings > 0 {
        push_str(&mut s, ", ");
    }
    if warnings > 0 {
        push_str(&mut s, u64_to_string(warnings).as_str());
        push_str(&mut s, " warning(s)");
    }
    s
}

/// Whether a lint run fails: on any error, and under `strict` on any
/// warning too.
pub fn lint_failed(errors: u64, warnings: u64, strict: bool) -> (b: bool)
    ensures
        b == (errors > 0 || (strict && warnings > 0)),
{
    errors > 0 || (strict && warnings > 0)
}

// ── `selvr init` ──────────────────────────────────────────────────────────────

/// The manifest `init` writes for a new project.
pub open spec fn init_manifest_text(name: Seq<char>) -> Seq<char> {
    "[package]\nname        = \""@ + name + "\"\nversion     = \"0.1.0\"\nauthors     = []\nlicense     = \"MIT\"\ndescription = \"A Selvr project\"\n\n[dependencies]\nselvr-std = \"1.0.0\"\n\n[build]\nemit  = \"js\"\nopt   = \"debug\"\nentry = \"src/main.self\"\n"@
}

pub fn init_manifest(name: &str) -> (s: String)
    ensures
        s@ == init_manifest_text(name@),
{
    let mut s = string_of("[package]\nname        = \"");
    push_str(&mut s, name);
    push_str(&mut s, "\"\nversion     = \"0.1.0\"\nauthors     = []\nlicense     = \"MIT\"\ndescription = \"A Selvr project\"\n\n[dependencies]\nselvr-std = \"1.0.0\"\n\n[build]\nemit  = \"js\"\nopt   = \"debug\"\nentry = \"src/main.self\"\n");
    s
}

/// The entry point `init` writes.
pub fn init_main_source() -> (s: String)
    ensures
        s@ == "// src/main.self — entry point\n\nfn main(): void {\n    console.log(\"Hello from Selvr!\");\n}\n"@,
{
    string_of("// src/main.self — entry point\n\nfn main(): void {\n    console.log(\"Hello from Selvr!\");\n}\n")
}

} // verus!
