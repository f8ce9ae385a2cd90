//! Targeting records and the per-module targeting map.

use vstd::prelude::*;
use indexmap::IndexMap;
use crate::ir::ir::Target;
use crate::text::{string_of, push_str, i64_to_string, u64_to_string, int_str, nat_digits, escape_quotes, escape_quotes_exec};

verus! {

#[verifier::external_type_specification]
#[verifier::external_body]
#[verifier::reject_recursive_types(K)]
#[verifier::reject_recursive_types(V)]
#[verifier::reject_recursive_types(S)]
pub struct ExIndexMap<K, V, S>(IndexMap<K, V, S>);

/// How one function was targeted.
#[derive(Debug, Clone)]
pub struct FnTarget {
    /// The function's mangled name, as in the IR.
    pub name: String,
    /// Final assigned target.
    pub target: Target,
    /// Whether a `#[wasm]` / `#[js]` attribute forced the target.
    pub forced: bool,
    /// Why the pass chose this target.
    pub reason: String,
    /// Inference score (higher = more WASM-like).
    pub score: i32,
    /// Names of functions called from this one.
    pub callees: Vec<String>,
}

/// The mathematical value of a [`FnTarget`].
pub struct FnTargetV {
    pub name: Seq<char>,
    pub target: Target,
    pub forced: bool,
    pub reason: Seq<char>,
    pub score: i32,
    pub callees: Seq<Seq<char>>,
}

impl View for FnTarget {
    type V = FnTargetV;

    open spec fn view(&self) -> FnTargetV {
        FnTargetV {
            name: self.name@,
            target: self.target,
            forced: self.forced,
            reason: self.reason@,
            score: self.score,
            callees: self.callees@.map_values(|c: String| c@),
        }
    }
}

pub fn copy_strings(v: &Vec<String>) -> (r: Vec<String>)
    ensures
        r@.map_values(|c: String| c@) == v@.map_values(|c: String| c@),
{
    let mut out: Vec<String> = Vec::new();
    let mut i: usize = 0;
    while i < v.len()
        invariant
            i <= v@.len(),
            out@.len() == i,
            forall|k: int| 0 <= k < i ==> #[trigger] out@[k]@ == v@[k]@,
        decreases v.len() - i,
    {
        out.push(v[i].clone());
        i = i + 1;
    }
    assert(out@.map_values(|c: String| c@) =~= v@.map_values(|c: String| c@));
    out
}

impl FnTarget {
    /// A copy of the record.
    pub fn duplicate(&self) -> (r: FnTarget)
        ensures
            r@ == self@,
    {
        FnTarget {
            name: self.name.clone(),
            target: self.target,
            forced: self.forced,
            reason: self.reason.clone(),
            score: self.score,
            callees: copy_strings(&self.callees),
        }
    }
}

/// What an `IndexMap<String, FnTarget>` holds, in order: each key with its
/// record.
pub uninterp spec fn target_entries(m: IndexMap<String, FnTarget>) -> Seq<(Seq<char>, FnTargetV)>;

/// Inserting `(k, v)`: an entry with key `k` keeps its place and takes the
/// new value; otherwise the pair goes last.
pub open spec fn entry_insert(es: Seq<(Seq<char>, FnTargetV)>, k: Seq<char>, v: FnTargetV) -> Seq<(Seq<char>, FnTargetV)> {
    if exists|i: int| 0 <= i < es.len() && (#[trigger] es[i]).0 == k {
        let i = choose|i: int| 0 <= i < es.len() && (#[trigger] es[i]).0 == k;
        es.update(i, (es[i].0, v))
    } else {
        es.push((k, v))
    }
}

/// Wraps `IndexMap::new`: an empty map.
#[verifier::external_body]
fn entries_new() -> (m: IndexMap<String, FnTarget>)
    ensures
        target_entries(m) == Seq::<(Seq<char>, FnTargetV)>::empty(),
{
    IndexMap::new()
}

/// Wraps `IndexMap::insert`: an equal key keeps its place and gets the
/// new value; a new key is appended.
#[verifier::external_body]
fn entries_insert(m: &mut IndexMap<String, FnTarget>, key: String, value: FnTarget)
    ensures
        target_entries(*final(m)) == entry_insert(target_entries(*old(m)), key@, value@),
{
    m.insert(key, value);
}

/// Wraps `IndexMap::len`: the number of entries.
#[verifier::external_body]
fn entries_len(m: &IndexMap<String, FnTarget>) -> (n: usize)
    ensures
        n == target_entries(*m).len(),
{
    m.len()
}

/// Wraps `IndexMap::get_index`, keeping the value: the entry at position
/// `i`, if there is one.
#[verifier::external_body]
fn entries_value_at(m: &IndexMap<String, FnTarget>, i: usize) -> (r: Option<&FnTarget>)
    ensures
        r is Some <==> i < target_entries(*m).len(),
        r matches Some(v) ==> v@ == target_entries(*m)[i as int].1,
{
    m.get_index(i).map(|(_, v)| v)
}

/// Wraps `IndexMap::get_index`, keeping the key.
#[verifier::external_body]
fn entries_key_at(m: &IndexMap<String, FnTarget>, i: usize) -> (r: Option<&String>)
    ensures
        r is Some <==> i < target_entries(*m).len(),
        r matches Some(k) ==> k@ == target_entries(*m)[i as int].0,
{
    m.get_index(i).map(|(k, _)| k)
}

/// Wraps `IndexMap::get_index_of`: the position of the entry with key
/// `key`, if any.
#[verifier::external_body]
fn entries_index_of(m: &IndexMap<String, FnTarget>, key: &str) -> (r: Option<usize>)
    ensures
        match r {
            Some(i) => i < target_entries(*m).len() && target_entries(*m)[i as int].0 == key@,
            None => forall|j: int| 0 <= j < target_entries(*m).len() ==> (#[trigger] target_entries(*m)[j]).0 != key@,
        },
{
    m.get_index_of(key)
}

/// The targeting result for one module, in insertion order.
#[derive(Debug)]
pub struct TargetMap {
    pub fns: IndexMap<String, FnTarget>,
}

/// No two entries share a key, and each key is its record's name.
pub open spec fn entries_wf(es: Seq<(Seq<char>, FnTargetV)>) -> bool {
    &&& forall|i: int, j: int| 0 <= i < j < es.len() ==> (#[trigger] es[i]).0 != (#[trigger] es[j]).0
    &&& forall|i: int| 0 <= i < es.len() ==> (#[trigger] es[i]).0 == es[i].1.name
}

/// How many records have target `t`.
pub open spec fn count_target(es: Seq<(Seq<char>, FnTargetV)>, t: Target) -> nat
    decreases es.len(),
{
    if es.len() == 0 {
        0
    } else {
        count_target(es.drop_last(), t) + if es.last().1.target == t { 1nat } else { 0nat }
    }
}

pub open spec fn bool_text(b: bool) -> Seq<char> {
    if b {
        "true"@
    } else {
        "false"@
    }
}

/// One record of the explain report.
pub open spec fn explain_entry(name: Seq<char>, r: FnTargetV) -> Seq<char> {
    let icon = match r.target {
        Target::Wasm => "[wasm]"@,
        Target::Js => "[js]  "@,
        Target::Auto => "[auto]"@,
    };
    let forced = if r.forced { " [forced by attribute]"@ } else { ""@ };
    "  "@ + icon + "  "@ + name + forced + "\n         score: "@ + int_str(r.score as int) + "  reason: "@
        + r.reason + "\n\n"@
}

pub open spec fn explain_entries(es: Seq<(Seq<char>, FnTargetV)>) -> Seq<char>
    decreases es.len(),
{
    if es.len() == 0 {
        seq![]
    } else {
        explain_entries(es.drop_last()) + explain_entry(es.last().0, es.last().1)
    }
}

/// One record of the JSON report.
pub open spec fn json_entry(indent: Seq<char>, name: Seq<char>, r: FnTargetV) -> Seq<char> {
    indent + "{\"fn\":\""@ + name + "\",\"target\":\""@ + r.target.name_spec() + "\",\"score\":"@
        + int_str(r.score as int) + ",\"forced\":"@ + bool_text(r.forced) + ",\"reason\":\""@
        + escape_quotes(r.reason) + "\"}"@
}

/// The JSON records, joined by `,\n`.
pub open spec fn json_entries(indent: Seq<char>, es: Seq<(Seq<char>, FnTargetV)>, by_key: bool) -> Seq<char>
    decreases es.len(),
{
    if es.len() == 0 {
        seq![]
    } else {
        let e = json_entry(indent, if by_key { es.last().0 } else { es.last().1.name }, es.last().1);
        if es.len() == 1 {
            e
        } else {
            json_entries(indent, es.drop_last(), by_key) + ",\n"@ + e
        }
    }
}

/// A JSON report with a summary of the wasm and js counts.
pub open spec fn json_report(w: nat, j: nat, entries: Seq<char>) -> Seq<char> {
    "{\n  \"summary\":{\"wasm\":"@ + nat_digits(w) + ",\"js\":"@ + nat_digits(j) + "},\n  \"functions\":[\n"@
        + entries + "\n  ]\n}"@
}

fn explain_line(name: &str, rec: &FnTarget) -> (s: String)
    ensures
        s@ == explain_entry(name@, rec@),
{
    let mut out = string_of("  ");
    match rec.target {
        Target::Wasm => push_str(&mut out, "[wasm]"),
        Target::Js => push_str(&mut out, "[js]  "),
        Target::Auto => push_str(&mut out, "[auto]"),
    }
    push_str(&mut out, "  ");
    push_str(&mut out, name);
    let ghost a = out@;
    if rec.forced {
        push_str(&mut out, " [forced by attribute]");
    }
    assert(out@ == a + (if rec.forced { " [forced by attribute]"@ } else { ""@ })) by {
        if !rec.forced {
            reveal_strlit("");
            assert(a + ""@ =~= a);
        }
    }
    push_str(&mut out, "\n         score: ");
    let sc = i64_to_string(rec.score as i64);
    push_str(&mut out, sc.as_str());
    push_str(&mut out, "  reason: ");
    push_str(&mut out, rec.reason.as_str());
    push_str(&mut out, "\n\n");
    out
}

fn json_line(indent: &str, name: &str, rec: &FnTarget) -> (s: String)
    ensures
        s@ == json_entry(indent@, name@, rec@),
{
    let mut out = string_of(indent);
    push_str(&mut out, "{\"fn\":\"");
    push_str(&mut out, name);
    push_str(&mut out, "\",\"target\":\"");
    push_str(&mut out, rec.target.name());
    push_str(&mut out, "\",\"score\":");
    push_str(&mut out, i64_to_string(rec.score as i64).as_str());
    push_str(&mut out, ",\"forced\":");
    push_str(&mut out, if rec.forced { "true" } else { "false" });
    push_str(&mut out, ",\"reason\":\"");
    push_str(&mut out, escape_quotes_exec(rec.reason.as_str()).as_str());
    push_str(&mut out, "\"}");
    out
}

impl TargetMap {
    /// The entries, in order.
    pub open spec fn entries(&self) -> Seq<(Seq<char>, FnTargetV)> {
        target_entries(self.fns)
    }

    pub open spec fn wf(&self) -> bool {
        entries_wf(self.entries())
    }

    pub fn new() -> (m: TargetMap)
        ensures
            m.wf(),
            m.entries() == Seq::<(Seq<char>, FnTargetV)>::empty(),
    {
        TargetMap { fns: entries_new() }
    }

    /// Records `rec` under its name, replacing an earlier record of that
    /// name in place.
    pub fn insert(&mut self, rec: FnTarget)
        requires
            old(self).wf(),
        ensures
            final(self).wf(),
            final(self).entries() == entry_insert(old(self).entries(), rec.name@, rec@),
    {
        let key = rec.name.clone();
        let ghost es = self.entries();
        entries_insert(&mut self.fns, key, rec);
        proof {
            let es2 = self.entries();
            if exists|i: int| 0 <= i < es.len() && (#[trigger] es[i]).0 == rec.name@ {
                let i = choose|i: int| 0 <= i < es.len() && (#[trigger] es[i]).0 == rec.name@;
                assert(es2 == es.update(i, (es[i].0, rec@)));
                assert forall|a: int, b: int| 0 <= a < b < es2.len() implies (#[trigger] es2[a]).0 != (#[trigger] es2[b]).0 by {
                    assert(es2[a].0 == es[a].0 && es2[b].0 == es[b].0);
                }
            } else {
                assert(es2 == es.push((rec.name@, rec@)));
                assert forall|a: int, b: int| 0 <= a < b < es2.len() implies (#[trigger] es2[a]).0 != (#[trigger] es2[b]).0 by {
                    if b == es.len() {
                        assert(es2[a] == es[a]);
                    } else {
                        assert(es2[a] == es[a] && es2[b] == es[b]);
                    }
                }
            }
        }
    }

    /// The record named `name`.
    pub fn get(&self, name: &str) -> (r: Option<&FnTarget>)
        requires
            self.wf(),
        ensures
            match r {
                Some(rec) => exists|i: int| 0 <= i < self.entries().len() && self.entries()[i].0 == name@ && rec@ == self.entries()[i].1,
                None => forall|i: int| 0 <= i < self.entries().len() ==> (#[trigger] self.entries()[i]).0 != name@,
            },
    {
        match entries_index_of(&self.fns, name) {
            Some(i) => entries_value_at(&self.fns, i),
            None => None,
        }
    }

    /// (wasm count, js count, undecided count)
    pub fn summary(&self) -> (r: (usize, usize, usize))
        ensures
            r.0 == count_target(self.entries(), Target::Wasm),
            r.1 == count_target(self.entries(), Target::Js),
            r.2 == count_target(self.entries(), Target::Auto),
    {
        let ghost es = self.entries();
        let n = entries_len(&self.fns);
        let mut w: usize = 0;
        let mut j: usize = 0;
        let mut a: usize = 0;
        let mut i: usize = 0;
        while i < n
            invariant
                n == es.len(),
                es == self.entries(),
                i <= n,
                w == count_target(es.subrange(0, i as int), Target::Wasm),
                j == count_target(es.subrange(0, i as int), Target::Js),
                a == count_target(es.subrange(0, i as int), Target::Auto),
                w <= i && j <= i && a <= i,
            decreases n - i,
        {
            let rec = entries_value_at(&self.fns, i).unwrap();
            proof {
                let sub = es.subrange(0, i + 1);
                assert(sub.drop_last() =~= es.subrange(0, i as int));
            }
            match rec.target {
                Target::Wasm => {
                    w = w + 1;
                },
                Target::Js => {
                    j = j + 1;
                },
                Target::Auto => {
                    a = a + 1;
                },
            }
            i = i + 1;
        }
        assert(es.subrange(0, i as int) =~= es);
        (w, j, a)
    }

    /// A human-readable split report (the `selvr explain` output).
    pub fn explain(&self) -> (s: String)
        ensures
            s@ == "=== Selvr targeting report ===\n\n"@ + explain_entries(self.entries()) + "Summary: "@
                + nat_digits(count_target(self.entries(), Target::Wasm)) + " wasm  "@ + nat_digits(
                count_target(self.entries(), Target::Js),
            ) + " js  "@ + nat_digits(count_target(self.entries(), Target::Auto)) + " undecided\n"@,
    {
        let ghost es = self.entries();
        let mut out = string_of("=== Selvr targeting report ===\n\n");
        let ghost head = out@;
        let n = entries_len(&self.fns);
        let mut i: usize = 0;
        while i < n
            invariant
                n == es.len(),
                es == self.entries(),
                i <= n,
                out@ == head + explain_entries(es.subrange(0, i as int)),
            decreases n - i,
        {
            let name = entries_key_at(&self.fns, i).unwrap();
            let rec = entries_value_at(&self.fns, i).unwrap();
            let ghost before = out@;
            let line = explain_line(name.as_str(), rec);
            push_str(&mut out, line.as_str());
            proof {
                let sub = es.subrange(0, i + 1);
                assert(sub.drop_last() =~= es.subrange(0, i as int));
                assert(out@ =~= before + explain_entry(es[i as int].0, es[i as int].1));
            }
            i = i + 1;
        }
        assert(es.subrange(0, i as int) =~= es);
        let (w, j, a) = self.summary();
        push_str(&mut out, "Summary: ");
        push_str(&mut out, u64_to_string(w as u64).as_str());
        push_str(&mut out, " wasm  ");
        push_str(&mut out, u64_to_string(j as u64).as_str());
        push_str(&mut out, " js  ");
        push_str(&mut out, u64_to_string(a as u64).as_str());
        push_str(&mut out, " undecided\n");
        out
    }

    /// Appends the JSON records of every entry, each under `indent`;
    /// `by_key` takes the name from the map's key rather than the record.
    pub(crate) fn json_records(&self, out: &mut String, indent: &str, by_key: bool)
        ensures
            final(out)@ == old(out)@ + json_entries(indent@, self.entries(), by_key),
    {
        let ghost es = self.entries();
        let n = entries_len(&self.fns);
        let mut i: usize = 0;
        while i < n
            invariant
                n == es.len(),
                es == self.entries(),
                i <= n,
                out@ == old(out)@ + json_entries(indent@, es.subrange(0, i as int), by_key),
            decreases n - i,
        {
            let key = entries_key_at(&self.fns, i).unwrap();
            let rec = entries_value_at(&self.fns, i).unwrap();
            let ghost before = out@;
            if i > 0 {
                push_str(out, ",\n");
            }
            let line = json_line(indent, if by_key { key.as_str() } else { rec.name.as_str() }, rec);
            push_str(out, line.as_str());
            proof {
                let sub = es.subrange(0, i + 1);
                assert(sub.drop_last() =~= es.subrange(0, i as int));
                let e = json_entry(indent@, if by_key { es[i as int].0 } else { es[i as int].1.name }, es[i as int].1);
                if i == 0 {
                    assert(es.subrange(0, 0) =~= Seq::<(Seq<char>, FnTargetV)>::empty());
                    assert(out@ =~= before + e);
                } else {
                    assert(out@ =~= before + ",\n"@ + e);
                }
            }
            i = i + 1;
        }
        assert(es.subrange(0, i as int) =~= es);
    }

    /// A machine-readable JSON split report.
    pub fn to_json(&self) -> (s: String)
        ensures
            s@ == json_report(
                count_target(self.entries(), Target::Wasm),
                count_target(self.entries(), Target::Js),
                json_entries("    "@, self.entries(), false),
            ),
    {
        let (w, j, _a) = self.summary();
        let mut out = string_of("{\n  \"summary\":{\"wasm\":");
        push_str(&mut out, u64_to_string(w as u64).as_str());
        push_str(&mut out, ",\"js\":");
        push_str(&mut out, u64_to_string(j as u64).as_str());
        push_str(&mut out, "},\n  \"functions\":[\n");
        self.json_records(&mut out, "    ", false);
        push_str(&mut out, "\n  ]\n}");
        out
    }
}

/// The record at position `j` of the map.
pub(crate) fn record_at(m: &TargetMap, j: usize) -> (r: &FnTarget)
    requires
        j < m.entries().len(),
    ensures
        r@ == m.entries()[j as int].1,
{
    entries_value_at(&m.fns, j).unwrap()
}

/// The number of records in the map.
pub(crate) fn record_count(m: &TargetMap) -> (n: usize)
    ensures
        n == m.entries().len(),
{
    entries_len(&m.fns)
}

/// The position of the record named `name`.
pub(crate) fn record_index(m: &TargetMap, name: &str) -> (r: Option<usize>)
    ensures
        match r {
            Some(i) => i < m.entries().len() && m.entries()[i as int].0 == name@,
            None => forall|j: int| 0 <= j < m.entries().len() ==> (#[trigger] m.entries()[j]).0 != name@,
        },
{
    entries_index_of(&m.fns, name)
}

impl Default for TargetMap {
    fn default() -> (m: TargetMap)
        ensures
            m.wf(),
            m.entries() == Seq::<(Seq<char>, FnTargetV)>::empty(),
    {
        TargetMap::new()
    }
}

} // verus!
