//! Call-graph propagation of targeting decisions.
//!
//! After inference, two rules are applied over a work list until neither
//! applies any more (a fixed point):
//!
//! 1. **Downgrade**: a WASM function that calls a JS function becomes JS,
//!    and its callers are queued again.
//! 2. **Upgrade**: a JS function with a positive score, no JS callee, and
//!    callers that are all WASM becomes WASM, and its callers and callees
//!    are queued again.
//!
//! Forced records never change.  The module's `IrFn.target`s follow the
//! map's records.

use vstd::prelude::*;
use std::collections::VecDeque;
use crate::ir::ir::{IrModule, IrFn, Target};
use crate::target::target::{FnTarget, FnTargetV, TargetMap, entry_insert, entries_wf, record_at, record_count, record_index};
use crate::target::infer::retargeted;
use crate::text::{string_of, str_eq, strictly_sorted, insert_sorted};

verus! {

pub open spec fn downgrade_reason() -> Seq<char> {
    "downgraded: calls a JS-only function"@
}

pub open spec fn upgrade_reason() -> Seq<char> {
    "upgraded: all callers are WASM and score is positive"@
}

/// `r` is `r0` itself, or `r0` moved by one of the two rules.
pub open spec fn moved_by_rule(r0: FnTargetV, r: FnTargetV) -> bool {
    &&& r.name == r0.name
    &&& r.forced == r0.forced
    &&& r.score == r0.score
    &&& r.callees == r0.callees
    &&& (r == r0 || (!r0.forced && ((r.target == Target::Js && r.reason == downgrade_reason()) || (
    r.target == Target::Wasm && r.reason == upgrade_reason()))))
}

/// Every entry of `es` is the entry of `es0` at its place, or that entry
/// moved by a rule.
pub open spec fn rule_moves(es0: Seq<(Seq<char>, FnTargetV)>, es: Seq<(Seq<char>, FnTargetV)>) -> bool {
    &&& es.len() == es0.len()
    &&& forall|i: int| 0 <= i < es.len() ==> (#[trigger] es[i]).0 == es0[i].0 && moved_by_rule(es0[i].1, es[i].1)
}

/// Some entry of `es` has key `n`.
pub open spec fn is_key(es: Seq<(Seq<char>, FnTargetV)>, n: Seq<char>) -> bool {
    exists|k: int| 0 <= k < es.len() && es[k].0 == n
}

/// The last position of a function named `n` in `fs`.
pub open spec fn last_named(fs: Seq<IrFn>, n: Seq<char>, i: int) -> bool {
    &&& 0 <= i < fs.len()
    &&& fs[i].name@ == n
    &&& forall|j: int| i < j < fs.len() ==> (#[trigger] fs[j]).name@ != n
}

/// The functions keep everything but their target; a function whose target
/// changed is the last of its name, and has the target of that name's
/// record.
pub open spec fn module_follows(fs0: Seq<IrFn>, fs: Seq<IrFn>, es: Seq<(Seq<char>, FnTargetV)>) -> bool {
    &&& fs.len() == fs0.len()
    &&& forall|i: int|
        0 <= i < fs.len() ==> (#[trigger] fs[i] == retargeted(fs0[i], fs[i].target)) && (fs[i].target
            == fs0[i].target || exists|k: int|
            0 <= k < es.len() && es[k].0 == fs0[i].name@ && last_named(fs0, fs0[i].name@, i)
                && fs[i].target == es[k].1.target)
}

/// The callers of the record at `j`: every record whose callees name it,
/// in map order.
pub open spec fn callers_of(es: Seq<(Seq<char>, FnTargetV)>, j: int, cs: Seq<usize>) -> bool {
    &&& forall|t: int| 0 <= t < cs.len() ==> (#[trigger] cs[t] as int) < es.len() && es[cs[t] as int].1.callees.contains(es[j].0)
    &&& forall|i: int| 0 <= i < es.len() && es[i].1.callees.contains(es[j].0) ==> cs.contains(i as usize)
}

/// The positions of the records among the first `i` of `es` that call the
/// record at `j`, in map order.
pub open spec fn callers_upto(es: Seq<(Seq<char>, FnTargetV)>, j: int, i: nat) -> Seq<usize>
    decreases i,
{
    if i == 0 {
        Seq::empty()
    } else {
        let prev = callers_upto(es, j, (i - 1) as nat);
        if es[i - 1].1.callees.contains(es[j].0) {
            prev.push((i - 1) as usize)
        } else {
            prev
        }
    }
}

/// Some callee of the record `r` names a record of `es` whose target is JS.
pub open spec fn calls_js(es: Seq<(Seq<char>, FnTargetV)>, r: FnTargetV) -> bool {
    exists|c: int, k: int|
        0 <= c < r.callees.len() && 0 <= k < es.len() && es[k].0 == r.callees[c] && es[k].1.target
            == Target::Js
}

/// There is a caller, and every caller in `cs` has a WASM record.
pub open spec fn all_callers_wasm(es: Seq<(Seq<char>, FnTargetV)>, cs: Seq<usize>) -> bool {
    &&& cs.len() > 0
    &&& forall|t: int| 0 <= t < cs.len() ==> es[#[trigger] cs[t] as int].1.target == Target::Wasm
}

/// `es` with the record at `j` moved to `t` for `reason`.
pub open spec fn set_target(es: Seq<(Seq<char>, FnTargetV)>, j: int, t: Target, reason: Seq<char>) -> Seq<
    (Seq<char>, FnTargetV),
> {
    let r = es[j].1;
    es.update(
        j,
        (es[j].0, FnTargetV { name: r.name, target: t, forced: r.forced, reason, score: r.score, callees: r.callees }),
    )
}

/// The work list after queueing each of `cs` in turn that is not queued
/// already.
pub open spec fn requeue(cs: Seq<usize>, q: Seq<usize>, inq: Seq<bool>) -> (Seq<usize>, Seq<bool>)
    decreases cs.len(),
{
    if cs.len() == 0 {
        (q, inq)
    } else {
        let (q1, i1) = requeue(cs.drop_last(), q, inq);
        let c = cs.last();
        if !i1[c as int] {
            (q1.push(c), i1.update(c as int, true))
        } else {
            (q1, i1)
        }
    }
}

/// The state of a propagation run: the records, the work list, which
/// records are queued, and the names updated so far.
pub struct PropState {
    pub es: Seq<(Seq<char>, FnTargetV)>,
    pub queue: Seq<usize>,
    pub queued: Seq<bool>,
    pub changed: Set<Seq<char>>,
}

/// One step of the work list over the call graph of `es0`: take the first
/// queued record; a WASM record that calls a JS one becomes JS and queues
/// its callers again; else a JS record with a positive score, no JS callee
/// and only WASM callers becomes WASM and queues its callers and callees
/// again.  Forced records stay.
pub open spec fn prop_step(es0: Seq<(Seq<char>, FnTargetV)>, s: PropState) -> PropState {
    if s.queue.len() == 0 {
        s
    } else {
        let j = s.queue[0] as int;
        let q = s.queue.subrange(1, s.queue.len() as int);
        let inq = s.queued.update(j, false);
        let r = s.es[j].1;
        let cs = callers_upto(es0, j, es0.len());
        if r.forced {
            PropState { es: s.es, queue: q, queued: inq, changed: s.changed }
        } else if calls_js(s.es, r) && r.target == Target::Wasm {
            let (q2, inq2) = requeue(cs, q, inq);
            PropState {
                es: set_target(s.es, j, Target::Js, downgrade_reason()),
                queue: q2,
                queued: inq2,
                changed: s.changed.insert(s.es[j].0),
            }
        } else if all_callers_wasm(s.es, cs) && r.target == Target::Js && r.score > 0 && !calls_js(s.es, r) {
            let (q2, inq2) = requeue(cs, q, inq);
            let (q3, inq3) = requeue(callees_upto(es0, j, es0.len()), q2, inq2);
            PropState {
                es: set_target(s.es, j, Target::Wasm, upgrade_reason()),
                queue: q3,
                queued: inq3,
                changed: s.changed.insert(s.es[j].0),
            }
        } else {
            PropState { es: s.es, queue: q, queued: inq, changed: s.changed }
        }
    }
}

/// The record at `k` is settled in `es`: forced, or neither rule applies
/// to it (a WASM record calls no JS one; a JS record with a positive score,
/// no JS callee and only WASM callers does not exist).  Callers are taken
/// from the call graph of `es0`.
pub open spec fn settled(es: Seq<(Seq<char>, FnTargetV)>, es0: Seq<(Seq<char>, FnTargetV)>, k: int) -> bool {
    let r = es[k].1;
    r.forced || ((r.target == Target::Wasm ==> !calls_js(es, r)) && !(r.target == Target::Js && r.score > 0
        && !calls_js(es, r) && all_callers_wasm(es, callers_upto(es0, k, es0.len()))))
}

/// Both rules hold of every record of `es`: the fixed point.
pub open spec fn rules_hold(es: Seq<(Seq<char>, FnTargetV)>) -> bool {
    forall|k: int| 0 <= k < es.len() ==> #[trigger] settled(es, es, k)
}

/// The work list holds positions below `n`, each once, and `queued` marks
/// exactly those.
pub open spec fn queue_ok(queue: Seq<usize>, queued: Seq<bool>, n: nat) -> bool {
    &&& queued.len() == n
    &&& forall|t: int| 0 <= t < queue.len() ==> (#[trigger] queue[t] as int) < n
    &&& forall|a: int, b: int| 0 <= a < b < queue.len() ==> #[trigger] queue[a] != #[trigger] queue[b]
    &&& forall|k: int| 0 <= k < n ==> (#[trigger] queued[k] <==> queue.contains(k as usize))
}

/// Every record off the work list is settled.
pub open spec fn off_queue_settled(es0: Seq<(Seq<char>, FnTargetV)>, s: PropState) -> bool {
    forall|k: int| 0 <= k < es0.len() && !(#[trigger] s.queued[k]) ==> settled(s.es, es0, k)
}

/// Queueing `cs` keeps the work list well formed, marks every position of
/// `cs`, and unmarks none.
proof fn lemma_requeue(cs: Seq<usize>, q: Seq<usize>, inq: Seq<bool>, n: nat)
    requires
        n <= usize::MAX,
        forall|t: int| 0 <= t < cs.len() ==> (#[trigger] cs[t] as int) < n,
        queue_ok(q, inq, n),
    ensures
        ({
            let (q2, i2) = requeue(cs, q, inq);
            &&& queue_ok(q2, i2, n)
            &&& forall|t: int| 0 <= t < cs.len() ==> #[trigger] i2[cs[t] as int]
            &&& forall|k: int| 0 <= k < n && #[trigger] inq[k] ==> i2[k]
        }),
    decreases cs.len(),
{
    if cs.len() > 0 {
        let d = cs.drop_last();
        assert forall|t: int| 0 <= t < d.len() implies (#[trigger] d[t] as int) < n by {
            assert(d[t] == cs[t]);
        }
        lemma_requeue(d, q, inq, n);
        let (q1, i1) = requeue(d, q, inq);
        let c = cs.last();
        assert(cs[cs.len() - 1] == c);
        let (q2, i2) = requeue(cs, q, inq);
        if !i1[c as int] {
            assert(q2 == q1.push(c) && i2 == i1.update(c as int, true));
            assert(!q1.contains(c));
            assert forall|k: int| 0 <= k < n implies (#[trigger] i2[k] <==> q2.contains(k as usize)) by {
                if k == c as int {
                    assert(q2[q1.len() as int] == c);
                } else {
                    if q2.contains(k as usize) {
                        let t = choose|t: int| 0 <= t < q2.len() && q2[t] == k as usize;
                        assert(t < q1.len());
                        assert(q1[t] == k as usize);
                    }
                    if q1.contains(k as usize) {
                        let t = choose|t: int| 0 <= t < q1.len() && q1[t] == k as usize;
                        assert(q2[t] == k as usize);
                    }
                }
            }
            assert forall|a: int, b: int| 0 <= a < b < q2.len() implies #[trigger] q2[a] != #[trigger] q2[b] by {
                if b == q1.len() {
                    assert(q2[a] == q1[a]);
                    if q1[a] == c {
                        assert(q1.contains(c));
                    }
                } else {
                    assert(q2[a] == q1[a] && q2[b] == q1[b]);
                }
            }
            assert forall|t: int| 0 <= t < q2.len() implies (#[trigger] q2[t] as int) < n by {
                if t < q1.len() {
                    assert(q2[t] == q1[t]);
                }
            }
            assert forall|t: int| 0 <= t < cs.len() implies #[trigger] i2[cs[t] as int] by {
                if t < d.len() {
                    assert(cs[t] == d[t]);
                }
            }
        } else {
            assert(q2 == q1 && i2 == i1);
            assert forall|t: int| 0 <= t < cs.len() implies #[trigger] i2[cs[t] as int] by {
                if t < d.len() {
                    assert(cs[t] == d[t]);
                }
            }
        }
    }
}

/// `es2` is `es` with only the target (and reason) of the record at `j`
/// changed.
pub open spec fn retargeted_at(es: Seq<(Seq<char>, FnTargetV)>, es2: Seq<(Seq<char>, FnTargetV)>, j: int) -> bool {
    &&& es2.len() == es.len()
    &&& forall|i: int| 0 <= i < es.len() && i != j ==> #[trigger] es2[i] == es[i]
    &&& es2[j].0 == es[j].0
    &&& es2[j].1.callees == es[j].1.callees
    &&& es2[j].1.forced == es[j].1.forced
    &&& es2[j].1.score == es[j].1.score
}

/// Retargeting the record at `j` leaves whether `r` calls a JS record alone
/// where `r` does not call it.
proof fn lemma_calls_js_frame(es: Seq<(Seq<char>, FnTargetV)>, es2: Seq<(Seq<char>, FnTargetV)>, j: int, r: FnTargetV)
    requires
        0 <= j < es.len(),
        retargeted_at(es, es2, j),
        !r.callees.contains(es[j].0),
    ensures
        calls_js(es2, r) == calls_js(es, r),
{
    if calls_js(es2, r) {
        let (c, kk) = choose|c: int, kk: int|
            0 <= c < r.callees.len() && 0 <= kk < es2.len() && es2[kk].0 == r.callees[c] && es2[kk].1.target
                == Target::Js;
        if kk == j {
            assert(r.callees.contains(es[j].0));
        }
        assert(es2[kk] == es[kk]);
    }
    if calls_js(es, r) {
        let (c, kk) = choose|c: int, kk: int|
            0 <= c < r.callees.len() && 0 <= kk < es.len() && es[kk].0 == r.callees[c] && es[kk].1.target
                == Target::Js;
        if kk == j {
            assert(r.callees.contains(es[j].0));
        }
        assert(es2[kk] == es[kk]);
    }
}

/// Retargeting the record at `j` leaves whether all of `cs` are WASM alone
/// where `j` is not among them, and never makes it true by a move off WASM.
proof fn lemma_all_wasm_frame(es: Seq<(Seq<char>, FnTargetV)>, es2: Seq<(Seq<char>, FnTargetV)>, j: int, cs: Seq<usize>)
    requires
        0 <= j < es.len(),
        j <= usize::MAX,
        retargeted_at(es, es2, j),
        forall|t: int| 0 <= t < cs.len() ==> (#[trigger] cs[t] as int) < es.len(),
    ensures
        !cs.contains(j as usize) ==> all_callers_wasm(es2, cs) == all_callers_wasm(es, cs),
        es2[j].1.target != Target::Wasm ==> (all_callers_wasm(es2, cs) ==> all_callers_wasm(es, cs)),
{
    if !cs.contains(j as usize) {
        assert forall|t: int| 0 <= t < cs.len() implies es2[#[trigger] cs[t] as int] == es[cs[t] as int] by {
            if cs[t] as int == j {
                assert(cs.contains(j as usize));
            }
        }
    }
    if es2[j].1.target != Target::Wasm && all_callers_wasm(es2, cs) {
        assert forall|t: int| 0 <= t < cs.len() implies es[#[trigger] cs[t] as int].1.target == Target::Wasm by {
            assert(es2[cs[t] as int].1.target == Target::Wasm);
            if cs[t] as int != j {
                assert(es2[cs[t] as int] == es[cs[t] as int]);
            }
        }
    }
}

/// Callers computed from two maps with the same keys and callees agree.
proof fn lemma_callers_same(es: Seq<(Seq<char>, FnTargetV)>, es0: Seq<(Seq<char>, FnTargetV)>, j: int, i: nat)
    requires
        i <= es.len(),
        es.len() == es0.len(),
        0 <= j < es.len(),
        forall|m: int| 0 <= m < es.len() ==> (#[trigger] es[m]).0 == es0[m].0 && es[m].1.callees == es0[m].1.callees,
    ensures
        callers_upto(es, j, i) == callers_upto(es0, j, i),
    decreases i,
{
    if i > 0 {
        lemma_callers_same(es, es0, j, (i - 1) as nat);
        assert(es[i - 1].0 == es0[i - 1].0);
        assert(es[j].0 == es0[j].0);
    }
}

/// One step keeps the work list well formed and every record off it
/// settled.
proof fn lemma_step_keeps(es0: Seq<(Seq<char>, FnTargetV)>, s: PropState)
    requires
        es0.len() <= usize::MAX,
        rule_moves(es0, s.es),
        queue_ok(s.queue, s.queued, es0.len()),
        off_queue_settled(es0, s),
        s.queue.len() > 0,
    ensures
        queue_ok(prop_step(es0, s).queue, prop_step(es0, s).queued, es0.len()),
        off_queue_settled(es0, prop_step(es0, s)),
{
    let n = es0.len();
    let es = s.es;
    let j = s.queue[0] as int;
    let q = s.queue.subrange(1, s.queue.len() as int);
    let inq = s.queued.update(j, false);
    let r = es[j].1;
    let cs = callers_upto(es0, j, n);
    let s2 = prop_step(es0, s);
    assert forall|m: int| 0 <= m < n implies (#[trigger] es[m]).0 == es0[m].0 && es[m].1.callees == es0[m].1.callees by {
        assert(moved_by_rule(es0[m].1, es[m].1));
    }
    // The work list after taking `j`.
    assert(queue_ok(q, inq, n)) by {
        assert forall|k: int| 0 <= k < n implies (#[trigger] inq[k] <==> q.contains(k as usize)) by {
            if q.contains(k as usize) {
                let t = choose|t: int| 0 <= t < q.len() && q[t] == k as usize;
                assert(s.queue[t + 1] == k as usize);
                if k == j {
                    assert(s.queue[0] == s.queue[t + 1]);
                }
                assert(s.queue.contains(k as usize));
            }
            if k != j && s.queue.contains(k as usize) {
                let t = choose|t: int| 0 <= t < s.queue.len() && s.queue[t] == k as usize;
                assert(t != 0);
                assert(q[t - 1] == k as usize);
            }
        }
        assert forall|a: int, b: int| 0 <= a < b < q.len() implies #[trigger] q[a] != #[trigger] q[b] by {
            assert(q[a] == s.queue[a + 1] && q[b] == s.queue[b + 1]);
        }
        assert forall|t: int| 0 <= t < q.len() implies (#[trigger] q[t] as int) < n by {
            assert(q[t] == s.queue[t + 1]);
        }
    }
    lemma_callers_upto(es0, j, n);
    lemma_callees_upto(es0, j, n);
    if r.forced || !((calls_js(es, r) && r.target == Target::Wasm) || (all_callers_wasm(es, cs) && r.target
        == Target::Js && r.score > 0 && !calls_js(es, r))) {
        assert(s2.es == es && s2.queue == q && s2.queued == inq);
        assert forall|k: int| 0 <= k < n && !(#[trigger] s2.queued[k]) implies settled(s2.es, es0, k) by {
            if k != j {
                assert(!s.queued[k]);
            }
        }
    } else if calls_js(es, r) && r.target == Target::Wasm {
        let es2 = set_target(es, j, Target::Js, downgrade_reason());
        lemma_requeue(cs, q, inq, n);
        let (q2, i2) = requeue(cs, q, inq);
        assert(s2.es == es2 && s2.queue == q2 && s2.queued == i2);
        assert(retargeted_at(es, es2, j));
        assert forall|k: int| 0 <= k < n && !(#[trigger] s2.queued[k]) implies settled(s2.es, es0, k) by {
            if k == j {
                let (c, kk) = choose|c: int, kk: int|
                    0 <= c < r.callees.len() && 0 <= kk < es.len() && es[kk].0 == r.callees[c] && es[kk].1.target
                        == Target::Js;
                assert(kk != j);
                assert(es2[kk] == es[kk]);
                assert(calls_js(es2, es2[j].1));
            } else {
                assert(!inq[k]);
                assert(!s.queued[k]);
                assert(settled(es, es0, k));
                assert(es2[k] == es[k]);
                if es0[k].1.callees.contains(es0[j].0) {
                    assert(cs.contains(k as usize));
                    let t = choose|t: int| 0 <= t < cs.len() && cs[t] == k as usize;
                    assert(i2[cs[t] as int]);
                }
                assert(!es[k].1.callees.contains(es[j].0));
                lemma_calls_js_frame(es, es2, j, es[k].1);
                lemma_callers_upto(es0, k, n);
                lemma_all_wasm_frame(es, es2, j, callers_upto(es0, k, n));
            }
        }
    } else {
        let es2 = set_target(es, j, Target::Wasm, upgrade_reason());
        let ce = callees_upto(es0, j, n);
        lemma_requeue(cs, q, inq, n);
        let (q2, i2) = requeue(cs, q, inq);
        lemma_requeue(ce, q2, i2, n);
        let (q3, i3) = requeue(ce, q2, i2);
        assert(s2.es == es2 && s2.queue == q3 && s2.queued == i3);
        assert(retargeted_at(es, es2, j));
        assert forall|k: int| 0 <= k < n && !(#[trigger] s2.queued[k]) implies settled(s2.es, es0, k) by {
            if k == j {
                if calls_js(es2, es2[j].1) {
                    let (c, kk) = choose|c: int, kk: int|
                        0 <= c < es2[j].1.callees.len() && 0 <= kk < es2.len() && es2[kk].0 == es2[j].1.callees[c]
                            && es2[kk].1.target == Target::Js;
                    assert(kk != j);
                    assert(es2[kk] == es[kk]);
                    assert(calls_js(es, r));
                }
            } else {
                assert(!i2[k]);
                assert(!inq[k]);
                assert(!s.queued[k]);
                assert(settled(es, es0, k));
                assert(es2[k] == es[k]);
                if es0[k].1.callees.contains(es0[j].0) {
                    assert(cs.contains(k as usize));
                    let t = choose|t: int| 0 <= t < cs.len() && cs[t] == k as usize;
                    assert(i2[cs[t] as int]);
                }
                if es0[j].1.callees.contains(es0[k].0) {
                    assert(ce.contains(k as usize));
                    let t = choose|t: int| 0 <= t < ce.len() && ce[t] == k as usize;
                    assert(i3[ce[t] as int]);
                }
                assert(!es[k].1.callees.contains(es[j].0));
                lemma_calls_js_frame(es, es2, j, es[k].1);
                lemma_callers_upto(es0, k, n);
                assert(!callers_upto(es0, k, n).contains(j as usize));
                lemma_all_wasm_frame(es, es2, j, callers_upto(es0, k, n));
            }
        }
    }
}

/// The sum of `s`.
pub open spec fn sum_of(s: Seq<int>) -> int
    decreases s.len(),
{
    if s.len() == 0 {
        0
    } else {
        sum_of(s.drop_last()) + s.last()
    }
}

proof fn lemma_sum_update(s: Seq<int>, i: int, v: int)
    requires
        0 <= i < s.len(),
    ensures
        sum_of(s.update(i, v)) == sum_of(s) - s[i] + v,
    decreases s.len(),
{
    let u = s.update(i, v);
    if i < s.len() - 1 {
        assert(u.drop_last() =~= s.drop_last().update(i, v));
        lemma_sum_update(s.drop_last(), i, v);
    } else {
        assert(u.drop_last() =~= s.drop_last());
    }
}

proof fn lemma_sum_twos(n: nat)
    ensures
        sum_of(Seq::new(n, |i: int| 2int)) == 2 * n,
    decreases n,
{
    if n > 0 {
        lemma_sum_twos((n - 1) as nat);
        assert(Seq::new(n, |i: int| 2int).drop_last() =~= Seq::new((n - 1) as nat, |i: int| 2int));
    }
}

proof fn lemma_sum_nonneg(s: Seq<int>)
    requires
        forall|k: int| 0 <= k < s.len() ==> 0 <= #[trigger] s[k],
    ensures
        sum_of(s) >= 0,
    decreases s.len(),
{
    if s.len() > 0 {
        lemma_sum_nonneg(s.drop_last());
    }
}

/// The moves each record has left, at most two: a JS record that has moved
/// calls a JS record (it can never move again), and one with none left is
/// JS.
pub open spec fn moves_ok(es: Seq<(Seq<char>, FnTargetV)>, left: Seq<int>) -> bool {
    &&& left.len() == es.len()
    &&& forall|k: int| 0 <= k < es.len() ==> 0 <= #[trigger] left[k] <= 2
    &&& forall|k: int| 0 <= k < es.len() && #[trigger] left[k] < 2 && es[k].1.target == Target::Js ==> calls_js(es, es[k].1)
    &&& forall|k: int| 0 <= k < es.len() && #[trigger] left[k] == 0 ==> es[k].1.target == Target::Js
}

proof fn lemma_upto_len(es: Seq<(Seq<char>, FnTargetV)>, j: int, i: nat)
    ensures
        callers_upto(es, j, i).len() <= i,
        callees_upto(es, j, i).len() <= i,
    decreases i,
{
    if i > 0 {
        lemma_upto_len(es, j, (i - 1) as nat);
    }
}

proof fn lemma_requeue_len(cs: Seq<usize>, q: Seq<usize>, inq: Seq<bool>)
    ensures
        requeue(cs, q, inq).0.len() <= q.len() + cs.len(),
    decreases cs.len(),
{
    if cs.len() > 0 {
        lemma_requeue_len(cs.drop_last(), q, inq);
    }
}

/// Each step either shortens the work list or spends one move of a record,
/// which queues at most `2n` records again.
proof fn lemma_step_budget(es0: Seq<(Seq<char>, FnTargetV)>, s: PropState, left: Seq<int>) -> (left2: Seq<int>)
    requires
        es0.len() <= usize::MAX,
        rule_moves(es0, s.es),
        queue_ok(s.queue, s.queued, es0.len()),
        s.queue.len() > 0,
        moves_ok(s.es, left),
    ensures
        moves_ok(prop_step(es0, s).es, left2),
        prop_step(es0, s).queue.len() + 2 * es0.len() * sum_of(left2) + 1 <= s.queue.len() + 2 * es0.len()
            * sum_of(left),
{
    let n = es0.len();
    let es = s.es;
    let j = s.queue[0] as int;
    let q = s.queue.subrange(1, s.queue.len() as int);
    let inq = s.queued.update(j, false);
    let r = es[j].1;
    let cs = callers_upto(es0, j, n);
    let s2 = prop_step(es0, s);
    let sl = sum_of(left);
    assert forall|m: int| 0 <= m < n implies (#[trigger] es[m]).0 == es0[m].0 && es[m].1.callees == es0[m].1.callees by {
        assert(moved_by_rule(es0[m].1, es[m].1));
    }
    lemma_upto_len(es0, j, n);
    lemma_callers_upto(es0, j, n);
    if r.forced || !((calls_js(es, r) && r.target == Target::Wasm) || (all_callers_wasm(es, cs) && r.target
        == Target::Js && r.score > 0 && !calls_js(es, r))) {
        assert(s2.es == es && s2.queue == q);
        left
    } else if calls_js(es, r) && r.target == Target::Wasm {
        let es2 = set_target(es, j, Target::Js, downgrade_reason());
        let left2 = left.update(j, left[j] - 1);
        lemma_requeue_len(cs, q, inq);
        lemma_sum_update(left, j, left[j] - 1);
        assert(s2.es == es2);
        assert(retargeted_at(es, es2, j));
        assert forall|k: int| 0 <= k < n && #[trigger] left2[k] < 2 && es2[k].1.target == Target::Js implies calls_js(es2, es2[k].1) by {
            let rk = es[k].1;
            if k != j {
                assert(es2[k] == es[k]);
            }
            assert(calls_js(es, rk));
            let (c, kk) = choose|c: int, kk: int|
                0 <= c < rk.callees.len() && 0 <= kk < es.len() && es[kk].0 == rk.callees[c] && es[kk].1.target
                    == Target::Js;
            assert(kk != j);
            assert(es2[kk] == es[kk]);
        }
        assert forall|k: int| 0 <= k < n && #[trigger] left2[k] == 0 implies es2[k].1.target == Target::Js by {
            if k != j {
                assert(es2[k] == es[k]);
            }
        }
        assert(s2.queue.len() <= q.len() + n);
        let a = s.queue.len() as int;
        assert(s2.queue.len() + 2 * n * (sl - 1) + 1 <= a + 2 * n * sl) by (nonlinear_arith)
            requires
                s2.queue.len() <= a - 1 + n,
                n >= 0,
        ;
        left2
    } else {
        let es2 = set_target(es, j, Target::Wasm, upgrade_reason());
        let ce = callees_upto(es0, j, n);
        let (q2, i2) = requeue(cs, q, inq);
        lemma_requeue_len(cs, q, inq);
        lemma_requeue_len(ce, q2, i2);
        assert(left[j] == 2);
        let left2 = left.update(j, 1);
        lemma_sum_update(left, j, 1);
        assert(s2.es == es2);
        assert(retargeted_at(es, es2, j));
        assert forall|k: int| 0 <= k < n && #[trigger] left2[k] < 2 && es2[k].1.target == Target::Js implies calls_js(es2, es2[k].1) by {
            let rk = es[k].1;
            assert(k != j);
            assert(es2[k] == es[k]);
            assert(calls_js(es, rk));
            let (c, kk) = choose|c: int, kk: int|
                0 <= c < rk.callees.len() && 0 <= kk < es.len() && es[kk].0 == rk.callees[c] && es[kk].1.target
                    == Target::Js;
            if kk == j {
                assert(es0[k].1.callees.contains(es0[j].0));
                assert(cs.contains(k as usize));
                let t = choose|t: int| 0 <= t < cs.len() && cs[t] == k as usize;
                assert(es[cs[t] as int].1.target == Target::Wasm);
            }
            assert(es2[kk] == es[kk]);
        }
        assert forall|k: int| 0 <= k < n && #[trigger] left2[k] == 0 implies es2[k].1.target == Target::Js by {
            assert(k != j);
            assert(es2[k] == es[k]);
        }
        assert(s2.queue.len() <= q.len() + 2 * n);
        let a = s.queue.len() as int;
        assert(s2.queue.len() + 2 * n * (sl - 1) + 1 <= a + 2 * n * sl) by (nonlinear_arith)
            requires
                s2.queue.len() <= a - 1 + 2 * n,
                n >= 0,
        ;
        left2
    }
}

/// Up to `fuel` steps, stopping when the work list is empty.
pub open spec fn prop_run(es0: Seq<(Seq<char>, FnTargetV)>, s: PropState, fuel: nat) -> PropState
    decreases fuel,
{
    if fuel == 0 || s.queue.len() == 0 {
        s
    } else {
        prop_run(es0, prop_step(es0, s), (fuel - 1) as nat)
    }
}

/// The steps a run over `n` records may take.
pub open spec fn step_budget_spec(n: nat) -> nat {
    if n >= 0x8000_0000 {
        0xffff_ffff_ffff_ffff
    } else {
        4 * n * n + n
    }
}

/// A run over `es0` with every record queued in map order.
pub open spec fn propagation(es0: Seq<(Seq<char>, FnTargetV)>) -> PropState {
    let start = PropState {
        es: es0,
        queue: Seq::new(es0.len(), |i: int| i as usize),
        queued: Seq::new(es0.len(), |i: int| true),
        changed: Set::empty(),
    };
    prop_run(es0, start, step_budget_spec(es0.len()))
}

/// The positions of the records among the first `i` of `es` that the
/// record at `j` calls, in map order.
pub open spec fn callees_upto(es: Seq<(Seq<char>, FnTargetV)>, j: int, i: nat) -> Seq<usize>
    decreases i,
{
    if i == 0 {
        Seq::empty()
    } else {
        let prev = callees_upto(es, j, (i - 1) as nat);
        if es[j].1.callees.contains(es[i - 1].0) {
            prev.push((i - 1) as usize)
        } else {
            prev
        }
    }
}

/// The positions `callees_upto` lists are below `i`; `k` is listed exactly
/// when the record at `j` calls the one at `k`.
pub proof fn lemma_callees_upto(es: Seq<(Seq<char>, FnTargetV)>, j: int, i: nat)
    requires
        i <= usize::MAX,
    ensures
        forall|t: int| 0 <= t < callees_upto(es, j, i).len() ==> (#[trigger] callees_upto(es, j, i)[t] as int) < i,
        forall|k: int| 0 <= k < i ==> (callees_upto(es, j, i).contains(k as usize) <==> es[j].1.callees.contains(#[trigger] es[k].0)),
    decreases i,
{
    if i > 0 {
        lemma_callees_upto(es, j, (i - 1) as nat);
        let prev = callees_upto(es, j, (i - 1) as nat);
        let cur = callees_upto(es, j, i);
        if es[j].1.callees.contains(es[i - 1].0) {
            assert(cur == prev.push((i - 1) as usize));
            assert forall|t: int| 0 <= t < cur.len() implies (#[trigger] cur[t] as int) < i by {
                if t < prev.len() {
                    assert(cur[t] == prev[t]);
                }
            }
        } else {
            assert(cur == prev);
        }
        assert forall|k: int| 0 <= k < i implies (cur.contains(k as usize) <==> es[j].1.callees.contains(#[trigger] es[k].0)) by {
            if es[j].1.callees.contains(es[i - 1].0) {
                assert(cur == prev.push((i - 1) as usize));
                if k == i - 1 {
                    assert(cur[cur.len() - 1] == k as usize);
                } else if cur.contains(k as usize) {
                    let t = choose|t: int| 0 <= t < cur.len() && cur[t] == k as usize;
                    if t < prev.len() {
                        assert(prev[t] == k as usize);
                    } else {
                        assert(cur[t] == (i - 1) as usize);
                        assert(false);
                    }
                } else if prev.contains(k as usize) {
                    let t = choose|t: int| 0 <= t < prev.len() && prev[t] == k as usize;
                    assert(cur[t] == k as usize);
                }
            } else {
                assert(cur == prev);
                if k == i - 1 && cur.contains(k as usize) {
                    let t = choose|t: int| 0 <= t < cur.len() && cur[t] == k as usize;
                    assert((prev[t] as int) < i - 1);
                    assert(false);
                }
            }
        }
    }
}

/// The positions `callers_upto` lists are below `i`; `k` is listed exactly
/// when the record at `k` calls the one at `j`.
pub proof fn lemma_callers_upto(es: Seq<(Seq<char>, FnTargetV)>, j: int, i: nat)
    requires
        i <= usize::MAX,
    ensures
        forall|t: int| 0 <= t < callers_upto(es, j, i).len() ==> (#[trigger] callers_upto(es, j, i)[t] as int) < i,
        forall|k: int| 0 <= k < i ==> (callers_upto(es, j, i).contains(k as usize) <==> (#[trigger] es[k].1.callees).contains(es[j].0)),
    decreases i,
{
    if i > 0 {
        lemma_callers_upto(es, j, (i - 1) as nat);
        let prev = callers_upto(es, j, (i - 1) as nat);
        let cur = callers_upto(es, j, i);
        if es[i - 1].1.callees.contains(es[j].0) {
            assert(cur == prev.push((i - 1) as usize));
            assert forall|t: int| 0 <= t < cur.len() implies (#[trigger] cur[t] as int) < i by {
                if t < prev.len() {
                    assert(cur[t] == prev[t]);
                }
            }
        } else {
            assert(cur == prev);
        }
        assert forall|k: int| 0 <= k < i implies (cur.contains(k as usize) <==> (#[trigger] es[k].1.callees).contains(es[j].0)) by {
            if es[i - 1].1.callees.contains(es[j].0) {
                assert(cur == prev.push((i - 1) as usize));
                if k == i - 1 {
                    assert(cur[cur.len() - 1] == k as usize);
                } else if cur.contains(k as usize) {
                    let t = choose|t: int| 0 <= t < cur.len() && cur[t] == k as usize;
                    if t < prev.len() {
                        assert(prev[t] == k as usize);
                    } else {
                        assert(cur[t] == (i - 1) as usize);
                        assert(false);
                    }
                } else if prev.contains(k as usize) {
                    let t = choose|t: int| 0 <= t < prev.len() && prev[t] == k as usize;
                    assert(cur[t] == k as usize);
                }
            } else {
                assert(cur == prev);
                if k == i - 1 && cur.contains(k as usize) {
                    let t = choose|t: int| 0 <= t < cur.len() && cur[t] == k as usize;
                    assert((prev[t] as int) < i - 1);
                    assert(false);
                }
            }
        }
    }
}

/// Entries of a map that propagation keeps well formed.
proof fn lemma_insert_existing(es: Seq<(Seq<char>, FnTargetV)>, i: int, v: FnTargetV)
    requires
        entries_wf(es),
        0 <= i < es.len(),
        v.name == es[i].0,
    ensures
        entry_insert(es, v.name, v) == es.update(i, (es[i].0, v)),
{
    let k = choose|k: int| 0 <= k < es.len() && (#[trigger] es[k]).0 == v.name;
    assert(k == i);
}

/// Position in `module.fns` of the last function named `name`.
fn last_index_named(fns: &Vec<IrFn>, name: &str) -> (r: Option<usize>)
    ensures
        match r {
            Some(i) => last_named(fns@, name@, i as int),
            None => forall|j: int| 0 <= j < fns@.len() ==> (#[trigger] fns@[j]).name@ != name@,
        },
{
    let mut i: usize = fns.len();
    while i > 0
        invariant
            i <= fns@.len(),
            forall|j: int| i <= j < fns@.len() ==> (#[trigger] fns@[j]).name@ != name@,
        decreases i,
    {
        if str_eq(fns[i - 1].name.as_str(), name) {
            return Some(i - 1);
        }
        i = i - 1;
    }
    None
}

/// The working state of one propagation run.
struct Propagation {
    map: TargetMap,
    fns: Vec<IrFn>,
    changed: Vec<String>,
}

impl Propagation {
    /// The run's state, with the work list `queue` and its marks `queued`.
    spec fn view_with(&self, queue: Seq<usize>, queued: Seq<bool>) -> PropState {
        PropState {
            es: self.map.entries(),
            queue,
            queued,
            changed: self.changed@.map_values(|x: String| x@).to_set(),
        }
    }

    spec fn inv(&self, es0: Seq<(Seq<char>, FnTargetV)>, fs0: Seq<IrFn>) -> bool {
        &&& self.map.wf()
        &&& entries_wf(es0)
        &&& rule_moves(es0, self.map.entries())
        &&& module_follows(fs0, self.fns@, self.map.entries())
        &&& strictly_sorted(self.changed@.map_values(|x: String| x@))
        &&& forall|t: int| 0 <= t < self.changed@.len() ==> is_key(es0, (#[trigger] self.changed@[t])@)
    }

    /// Sets the record at `j` to `target` for `reason`, and the module's
    /// function of that name with it.
    fn update(&mut self, j: usize, target: Target, reason: &str, Ghost(es0): Ghost<Seq<(Seq<char>, FnTargetV)>>, Ghost(fs0): Ghost<Seq<IrFn>>)
        requires
            old(self).inv(es0, fs0),
            j < old(self).map.entries().len(),
            !es0[j as int].1.forced,
            (target == Target::Js && reason@ == downgrade_reason()) || (target == Target::Wasm && reason@
                == upgrade_reason()),
        ensures
            final(self).inv(es0, fs0),
            final(self).map.entries()[j as int].1.target == target,
            final(self).map.entries() == set_target(old(self).map.entries(), j as int, target, reason@),
            final(self).changed@.map_values(|x: String| x@).to_set() == old(self).changed@.map_values(
                |x: String| x@,
            ).to_set().insert(old(self).map.entries()[j as int].0),
    {
        let ghost es = self.map.entries();
        let rec = record_at(&self.map, j);
        let mut rec2 = rec.duplicate();
        rec2.target = target;
        rec2.reason = string_of(reason);
        let name = rec2.name.clone();
        let ghost v = rec2@;
        proof {
            lemma_insert_existing(es, j as int, v);
        }
        self.map.insert(rec2);
        let ghost es2 = self.map.entries();
        assert(es2 == es.update(j as int, (es[j as int].0, v)));
        assert(es2 == set_target(es, j as int, target, reason@));
        assert(rule_moves(es0, es2)) by {
            assert forall|i: int| 0 <= i < es2.len() implies (#[trigger] es2[i]).0 == es0[i].0 && moved_by_rule(es0[i].1, es2[i].1) by {
                if i == j {
                    assert(es[i].0 == es0[i].0);
                }
            }
        }
        match last_index_named(&self.fns, name.as_str()) {
            Some(idx) => {
                let mut fns: Vec<IrFn> = Vec::new();
                std::mem::swap(&mut fns, &mut self.fns);
                let ghost fs = fns@;
                let mut f = fns.remove(idx);
                f.target = target;
                fns.insert(idx, f);
                proof {
                    let fs2 = fns@;
                    assert(fs2 =~= fs.update(idx as int, retargeted(fs[idx as int], target)));
                    assert(fs[idx as int].name@ == name@);
                    assert forall|i: int| 0 <= i < fs2.len() implies (#[trigger] fs2[i] == retargeted(fs0[i], fs2[i].target)) && (fs2[i].target
                        == fs0[i].target || exists|k: int|
                        0 <= k < es2.len() && es2[k].0 == fs0[i].name@ && last_named(fs0, fs0[i].name@, i)
                            && fs2[i].target == es2[k].1.target) by {
                        if i == idx {
                            assert(fs[i] == retargeted(fs0[i], fs[i].target));
                            assert(fs0[i].name@ == name@);
                            assert forall|m: int| i < m < fs0.len() implies (#[trigger] fs0[m]).name@ != name@ by {
                                assert(fs[m] == retargeted(fs0[m], fs[m].target));
                            }
                            assert(es2[j as int].0 == fs0[i].name@);
                        } else {
                            if fs2[i].target != fs0[i].target {
                                let k = choose|k: int|
                                    0 <= k < es.len() && es[k].0 == fs0[i].name@ && last_named(fs0, fs0[i].name@, i)
                                        && fs[i].target == es[k].1.target;
                                if k == j {
                                    assert(fs0[i].name@ == name@);
                                    assert(fs0[idx as int].name@ == name@) by {
                                        assert(fs[idx as int] == retargeted(fs0[idx as int], fs[idx as int].target));
                                    }
                                    assert(false);
                                }
                                assert(es2[k] == es[k]);
                            }
                        }
                    }
                }
                std::mem::swap(&mut fns, &mut self.fns);
            },
            None => {
                proof {
                    let fs = self.fns@;
                    assert forall|i: int| 0 <= i < fs.len() implies (#[trigger] fs[i] == retargeted(fs0[i], fs[i].target)) && (fs[i].target
                        == fs0[i].target || exists|k: int|
                        0 <= k < es2.len() && es2[k].0 == fs0[i].name@ && last_named(fs0, fs0[i].name@, i)
                            && fs[i].target == es2[k].1.target) by {
                        if fs[i].target != fs0[i].target {
                            let k = choose|k: int|
                                0 <= k < es.len() && es[k].0 == fs0[i].name@ && last_named(fs0, fs0[i].name@, i)
                                    && fs[i].target == es[k].1.target;
                            if k == j {
                                assert(fs[i].name@ == name@);
                                assert(false);
                            }
                            assert(es2[k] == es[k]);
                        }
                    }
                }
            },
        }
        proof {
            assert(es[j as int].0 == es0[j as int].0);
        }
        insert_sorted(&mut self.changed, name);
        proof {
            let cv = self.changed@.map_values(|x: String| x@);
            assert forall|t: int| 0 <= t < self.changed@.len() implies is_key(es0, (#[trigger] self.changed@[t])@) by {
                assert(cv[t] == self.changed@[t]@);
                assert(cv.to_set().contains(cv[t]));
                let ov = old(self).changed@.map_values(|x: String| x@);
                if ov.to_set().contains(cv[t]) {
                    let u = choose|u: int| 0 <= u < ov.len() && ov[u] == cv[t];
                    assert(ov[u] == old(self).changed@[u]@);
                } else {
                    assert(es0[j as int].0 == cv[t]);
                }
            }
        }
    }
}

/// Whether the record at `a` names the record at `b` among its callees.
fn calls_record(map: &TargetMap, a: usize, b: usize) -> (r: bool)
    requires
        a < map.entries().len(),
        b < map.entries().len(),
        map.wf(),
    ensures
        r == map.entries()[a as int].1.callees.contains(map.entries()[b as int].0),
{
    let ghost es = map.entries();
    let ra = record_at(map, a);
    let name = &record_at(map, b).name;
    assert(es[b as int].0 == es[b as int].1.name);
    let mut k: usize = 0;
    while k < ra.callees.len()
        invariant
            k <= ra.callees@.len(),
            es == map.entries(),
            (a as int) < es.len(),
            (b as int) < es.len(),
            ra@ == es[a as int].1,
            name@ == es[b as int].0,
            forall|t: int| 0 <= t < k ==> ra.callees@[t]@ != name@,
        decreases ra.callees.len() - k,
    {
        if str_eq(ra.callees[k].as_str(), name.as_str()) {
            assert(ra@.callees[k as int] == ra.callees@[k as int]@);
            assert(ra@.callees[k as int] == name@);
            assert(es[a as int].1.callees.contains(es[b as int].0));
            return true;
        }
        k = k + 1;
    }
    proof {
        assert forall|t: int| 0 <= t < ra@.callees.len() implies ra@.callees[t] != name@ by {
            assert(ra@.callees[t] == ra.callees@[t]@);
        }
    }
    false
}

/// For every record, the positions of the records it calls.
fn callee_index(map: &TargetMap) -> (cs: Vec<Vec<usize>>)
    requires
        map.wf(),
    ensures
        cs@.len() == map.entries().len(),
        forall|j: int| 0 <= j < cs@.len() ==> (#[trigger] cs@[j])@ == callees_upto(map.entries(), j, map.entries().len()),
{
    let ghost es = map.entries();
    let n = record_count(map);
    let mut cs: Vec<Vec<usize>> = Vec::new();
    let mut j: usize = 0;
    while j < n
        invariant
            map.wf(),
            n == es.len(),
            es == map.entries(),
            j <= n,
            cs@.len() == j,
            forall|jj: int| 0 <= jj < j ==> (#[trigger] cs@[jj])@ == callees_upto(es, jj, n as nat),
        decreases n - j,
    {
        let mut list: Vec<usize> = Vec::new();
        let mut i: usize = 0;
        while i < n
            invariant
                map.wf(),
                n == es.len(),
                es == map.entries(),
                j < n,
                i <= n,
                list@ == callees_upto(es, j as int, i as nat),
            decreases n - i,
        {
            if calls_record(map, j, i) {
                list.push(i);
            }
            i = i + 1;
        }
        cs.push(list);
        j = j + 1;
    }
    cs
}

/// For every record, the positions of the records that call it.
fn caller_index(map: &TargetMap) -> (cs: Vec<Vec<usize>>)
    requires
        map.wf(),
    ensures
        cs@.len() == map.entries().len(),
        forall|j: int| 0 <= j < cs@.len() ==> callers_of(map.entries(), j, (#[trigger] cs@[j])@),
        forall|j: int| 0 <= j < cs@.len() ==> (#[trigger] cs@[j])@ == callers_upto(map.entries(), j, map.entries().len()),
{
    let ghost es = map.entries();
    let n = record_count(map);
    let mut cs: Vec<Vec<usize>> = Vec::new();
    let mut j: usize = 0;
    while j < n
        invariant
            map.wf(),
            n == es.len(),
            es == map.entries(),
            j <= n,
            cs@.len() == j,
            forall|jj: int| 0 <= jj < j ==> callers_of(es, jj, (#[trigger] cs@[jj])@),
            forall|jj: int| 0 <= jj < j ==> (#[trigger] cs@[jj])@ == callers_upto(es, jj, n as nat),
        decreases n - j,
    {
        let name = &record_at(map, j).name;
        assert(es[j as int].0 == es[j as int].1.name);
        let mut list: Vec<usize> = Vec::new();
        let mut i: usize = 0;
        while i < n
            invariant
                n == es.len(),
                es == map.entries(),
                j < n,
                name@ == es[j as int].0,
                i <= n,
                forall|t: int| 0 <= t < list@.len() ==> (#[trigger] list@[t] as int) < es.len() && es[list@[t] as int].1.callees.contains(es[j as int].0),
                forall|ii: int| 0 <= ii < i && es[ii].1.callees.contains(es[j as int].0) ==> list@.contains(ii as usize),
                list@ == callers_upto(es, j as int, i as nat),
            decreases n - i,
        {
            let rec = record_at(map, i);
            let mut hit = false;
            let mut k: usize = 0;
            while k < rec.callees.len()
                invariant
                    i < n,
                    n == es.len(),
                    rec@ == es[i as int].1,
                    k <= rec.callees@.len(),
                    hit == exists|t: int| 0 <= t < k && rec.callees@[t]@ == name@,
                decreases rec.callees.len() - k,
            {
                if str_eq(rec.callees[k].as_str(), name.as_str()) {
                    hit = true;
                }
                k = k + 1;
            }
            proof {
                let cv = rec.callees@.map_values(|c: String| c@);
                if hit {
                    let t = choose|t: int| 0 <= t < k && rec.callees@[t]@ == name@;
                    assert(cv[t] == name@);
                    assert(es[i as int].1.callees.contains(es[j as int].0));
                } else {
                    assert forall|t: int| 0 <= t < cv.len() implies cv[t] != name@ by {
                        assert(cv[t] == rec.callees@[t]@);
                    }
                    assert(!es[i as int].1.callees.contains(es[j as int].0));
                }
            }
            let ghost old_list = list@;
            if hit {
                list.push(i);
            }
            proof {
                assert forall|ii: int| 0 <= ii < i + 1 && es[ii].1.callees.contains(es[j as int].0) implies list@.contains(ii as usize) by {
                    if ii == i {
                        assert(list@[list@.len() - 1] == i);
                    } else {
                        assert(old_list.contains(ii as usize));
                        let t = choose|t: int| 0 <= t < old_list.len() && old_list[t] == ii as usize;
                        assert(list@[t] == ii as usize);
                    }
                }
            }
            i = i + 1;
        }
        cs.push(list);
        j = j + 1;
    }
    cs
}

/// The steps the work list may take: every function once, then, for each
/// of the at most two moves of every record, its callers and callees once.
fn step_budget(n: usize) -> (r: u64)
    ensures
        r == step_budget_spec(n as nat),
{
    if n >= 0x8000_0000 {
        u64::MAX
    } else {
        let m = n as u64;
        assert(4 * m * m + m < 0x1_0000_0000_0000_0000) by (nonlinear_arith)
            requires
                m < 0x8000_0000u64,
        ;
        4 * m * m + m
    }
}

/// Queues each of `cs` in turn that is not queued already.
fn requeue_all(queue: &mut VecDeque<usize>, in_queue: &mut Vec<bool>, cs: &Vec<usize>, n: usize)
    requires
        old(in_queue)@.len() == n,
        forall|t: int| 0 <= t < cs@.len() ==> (#[trigger] cs@[t]) < n,
        forall|q: int| 0 <= q < old(queue)@.len() ==> (#[trigger] old(queue)@[q]) < n,
    ensures
        final(in_queue)@.len() == n,
        forall|q: int| 0 <= q < final(queue)@.len() ==> (#[trigger] final(queue)@[q]) < n,
        (final(queue)@, final(in_queue)@) == requeue(cs@, old(queue)@, old(in_queue)@),
{
    let ghost q0 = queue@;
    let ghost i0 = in_queue@;
    let mut t: usize = 0;
    while t < cs.len()
        invariant
            in_queue@.len() == n,
            t <= cs@.len(),
            forall|u: int| 0 <= u < cs@.len() ==> (#[trigger] cs@[u]) < n,
            forall|q: int| 0 <= q < queue@.len() ==> (#[trigger] queue@[q]) < n,
            (queue@, in_queue@) == requeue(cs@.take(t as int), q0, i0),
        decreases cs.len() - t,
    {
        let c = cs[t];
        assert(cs@.take(t + 1).drop_last() =~= cs@.take(t as int));
        if !in_queue[c] {
            queue.push_back(c);
            in_queue.set(c, true);
        }
        t = t + 1;
    }
    assert(cs@.take(t as int) =~= cs@);
}

/// Applies the two rules over the call graph, starting with every record
/// queued, until the work list is empty.  Every record moves at most twice
/// (a JS record that has moved keeps a JS callee), so the step budget
/// suffices below 2^31 records, and then both rules hold of every record.  Mutates the records
/// of `map` and the targets of `module.fns`; returns the names of the
/// records it updated, sorted, each once.
pub fn propagate_targets(module: &mut IrModule, map: &mut TargetMap) -> (changed: Vec<String>)
    requires
        old(map).wf(),
    ensures
        final(map).wf(),
        rule_moves(old(map).entries(), final(map).entries()),
        module_follows(old(module).fns@, final(module).fns@, final(map).entries()),
        final(module).name == old(module).name,
        final(module).globals == old(module).globals,
        strictly_sorted(changed@.map_values(|x: String| x@)),
        forall|t: int| 0 <= t < changed@.len() ==> is_key(old(map).entries(), (#[trigger] changed@[t])@),
        final(map).entries() == propagation(old(map).entries()).es,
        old(map).entries().len() < 0x8000_0000 ==> rules_hold(final(map).entries()),
        changed@.map_values(|x: String| x@).to_set() == propagation(old(map).entries()).changed,
{
    let ghost es0 = map.entries();
    let ghost fs0 = module.fns@;
    let callers = caller_index(map);
    let callees = callee_index(map);
    let mut taken_map = TargetMap::new();
    std::mem::swap(&mut taken_map, map);
    let mut taken_fns: Vec<IrFn> = Vec::new();
    std::mem::swap(&mut taken_fns, &mut module.fns);
    let mut st = Propagation { map: taken_map, fns: taken_fns, changed: Vec::new() };
    assert(st.inv(es0, fs0)) by {
        assert forall|i: int| 0 <= i < st.fns@.len() implies (#[trigger] st.fns@[i] == retargeted(fs0[i], st.fns@[i].target)) by {
            assert(st.fns@[i] == fs0[i]);
        }
    }
    let n = record_count(&st.map);
    let mut queue: VecDeque<usize> = VecDeque::new();
    let mut in_queue: Vec<bool> = Vec::new();
    let mut i: usize = 0;
    while i < n
        invariant
            i <= n,
            queue@.len() == i,
            in_queue@.len() == i,
            forall|t: int| 0 <= t < queue@.len() ==> (#[trigger] queue@[t]) < n,
            forall|t: int| 0 <= t < queue@.len() ==> (#[trigger] queue@[t]) == t,
            forall|t: int| 0 <= t < in_queue@.len() ==> (#[trigger] in_queue@[t]),
        decreases n - i,
    {
        queue.push_back(i);
        in_queue.push(true);
        i = i + 1;
    }
    let mut fuel = step_budget(n);
    let ghost mut left: Seq<int> = Seq::new(n as nat, |i: int| 2int);
    proof {
        assert(queue@ =~= Seq::new(es0.len(), |i: int| i as usize));
        assert(in_queue@ =~= Seq::new(es0.len(), |i: int| true));
        assert(st.changed@.map_values(|x: String| x@).to_set() =~= Set::<Seq<char>>::empty());
        assert(st.view_with(queue@, in_queue@) == PropState {
            es: es0,
            queue: Seq::new(es0.len(), |i: int| i as usize),
            queued: Seq::new(es0.len(), |i: int| true),
            changed: Set::empty(),
        });
        assert forall|k: int| 0 <= k < n implies (#[trigger] in_queue@[k] <==> queue@.contains(k as usize)) by {
            assert(queue@[k] == k as usize);
        }
        lemma_sum_twos(n as nat);
        assert(left.len() == n);
        if n < 0x8000_0000 {
            assert(fuel as int == 4 * n * n + n);
            assert(4 * n * n + n == n + 2 * n * (2 * n)) by (nonlinear_arith);
        }
        assert(2 * n * (2 * n) >= 0) by (nonlinear_arith);
    }
    while fuel > 0
        invariant
            st.inv(es0, fs0),
            n == es0.len(),
            st.map.entries().len() == n,
            in_queue@.len() == n,
            callers@.len() == n,
            forall|j: int| 0 <= j < n ==> callers_of(es0, j, (#[trigger] callers@[j])@),
            forall|j: int| 0 <= j < n ==> (#[trigger] callers@[j])@ == callers_upto(es0, j, n as nat),
            callees@.len() == n,
            forall|j: int| 0 <= j < n ==> (#[trigger] callees@[j])@ == callees_upto(es0, j, n as nat),
            forall|t: int| 0 <= t < queue@.len() ==> (#[trigger] queue@[t]) < n,
            prop_run(es0, st.view_with(queue@, in_queue@), fuel as nat) == propagation(es0),
            queue_ok(queue@, in_queue@, n as nat),
            off_queue_settled(es0, st.view_with(queue@, in_queue@)),
            moves_ok(st.map.entries(), left),
            2 * n * sum_of(left) >= 0,
            n < 0x8000_0000 ==> fuel as int >= queue@.len() + 2 * n * sum_of(left),
        ensures
            st.inv(es0, fs0),
            queue_ok(queue@, in_queue@, n as nat),
            off_queue_settled(es0, st.view_with(queue@, in_queue@)),
            fuel == 0 || queue@.len() == 0,
            n < 0x8000_0000 ==> queue@.len() == 0,
            prop_run(es0, st.view_with(queue@, in_queue@), fuel as nat) == propagation(es0),
        decreases fuel,
    {
        let ghost s0 = st.view_with(queue@, in_queue@);
        let j = match queue.pop_front() {
            Some(j) => j,
            None => break,
        };
        proof {
            lemma_step_keeps(es0, s0);
            let left2 = lemma_step_budget(es0, s0, left);
            left = left2;
            lemma_sum_nonneg(left);
            let sl = sum_of(left);
            assert(2 * n * sl >= 0) by (nonlinear_arith)
                requires
                    sl >= 0,
            ;
        }
        fuel = fuel - 1;
        in_queue.set(j, false);
        let ghost q1 = queue@;
        let ghost inq1 = in_queue@;
        assert(prop_run(es0, s0, (fuel + 1) as nat) == prop_run(es0, prop_step(es0, s0), fuel as nat));
        let (forced, target, score) = {
            let rec = record_at(&st.map, j);
            (rec.forced, rec.target, rec.score)
        };
        if forced {
            assert(st.view_with(queue@, in_queue@) == prop_step(es0, s0));
            continue;
        }
        proof {
            let es = st.map.entries();
            assert(moved_by_rule(es0[j as int].1, es[j as int].1));
        }
        // Rule 1: a WASM function with a JS callee becomes JS.
        let mut has_js_callee = false;
        {
            let rec = record_at(&st.map, j);
            let ghost es = st.map.entries();
            let mut k: usize = 0;
            while k < rec.callees.len()
                invariant
                    k <= rec.callees@.len(),
                    j < es.len(),
                    es == st.map.entries(),
                    st.map.wf(),
                    rec@ == es[j as int].1,
                    has_js_callee == exists|c: int, kk: int|
                        0 <= c < k && 0 <= kk < es.len() && es[kk].0 == rec.callees@[c]@ && es[kk].1.target
                            == Target::Js,
                decreases rec.callees.len() - k,
            {
                let ghost before = has_js_callee;
                match record_index(&st.map, rec.callees[k].as_str()) {
                    Some(c) => {
                        if record_at(&st.map, c).target == Target::Js {
                            has_js_callee = true;
                        }
                        proof {
                            if !before && es[c as int].1.target != Target::Js {
                                assert forall|cc: int, kk: int|
                                    0 <= cc < k + 1 && 0 <= kk < es.len() && es[kk].0 == rec.callees@[cc]@ implies es[kk].1.target
                                        != Target::Js by {
                                    if cc == k && kk != c {
                                        assert(es[kk].0 != es[c as int].0);
                                    }
                                }
                            }
                        }
                    },
                    None => {},
                }
                k = k + 1;
            }
            proof {
                let r = es[j as int].1;
                if has_js_callee {
                    let (c, kk) = choose|c: int, kk: int|
                        0 <= c < k && 0 <= kk < es.len() && es[kk].0 == rec.callees@[c]@ && es[kk].1.target
                            == Target::Js;
                    assert(r.callees[c] == rec.callees@[c]@);
                } else {
                    assert forall|c: int, kk: int|
                        0 <= c < r.callees.len() && 0 <= kk < es.len() && es[kk].0 == r.callees[c] implies es[kk].1.target
                            != Target::Js by {
                        assert(r.callees[c] == rec.callees@[c]@);
                    }
                }
                assert(has_js_callee == calls_js(es, r));
            }
        }
        if has_js_callee && target == Target::Wasm {
            st.update(j, Target::Js, "downgraded: calls a JS-only function", Ghost(es0), Ghost(fs0));
            let cs = &callers[j];
            let mut t: usize = 0;
            while t < cs.len()
                invariant
                    in_queue@.len() == n,
                    callers_of(es0, j as int, cs@),
                    j < n,
                    n == es0.len(),
                    t <= cs@.len(),
                    forall|q: int| 0 <= q < queue@.len() ==> (#[trigger] queue@[q]) < n,
                    (queue@, in_queue@) == requeue(cs@.take(t as int), q1, inq1),
                decreases cs.len() - t,
            {
                let c = cs[t];
                assert((c as int) < es0.len());
                assert(cs@.take(t + 1).drop_last() =~= cs@.take(t as int));
                if !in_queue[c] {
                    queue.push_back(c);
                    in_queue.set(c, true);
                }
                t = t + 1;
            }
            assert(cs@.take(t as int) =~= cs@);
            assert(st.view_with(queue@, in_queue@) == prop_step(es0, s0));
            continue;
        }
        // Rule 2: a JS function with a positive score whose callers are all
        // WASM becomes WASM.
        let cs = &callers[j];
        let mut all_wasm = cs.len() > 0;
        let mut t: usize = 0;
        while t < cs.len()
            invariant
                callers_of(es0, j as int, cs@),
                j < n,
                n == es0.len(),
                st.map.entries().len() == n,
                t <= cs@.len(),
                all_wasm == (cs@.len() > 0 && forall|u: int| 0 <= u < t ==> st.map.entries()[#[trigger] cs@[u] as int].1.target == Target::Wasm),
            decreases cs.len() - t,
        {
            let c = cs[t];
            if record_at(&st.map, c).target != Target::Wasm {
                all_wasm = false;
            }
            t = t + 1;
        }
        if all_wasm && target == Target::Js && score > 0 && !has_js_callee {
            st.update(j, Target::Wasm, "upgraded: all callers are WASM and score is positive", Ghost(es0), Ghost(fs0));
            requeue_all(&mut queue, &mut in_queue, cs, n);
            let ghost q2 = queue@;
            let ghost i2 = in_queue@;
            proof {
                lemma_callees_upto(es0, j as int, n as nat);
            }
            requeue_all(&mut queue, &mut in_queue, &callees[j], n);
            assert((queue@, in_queue@) == requeue(callees@[j as int]@, q2, i2));
        }
        assert(st.view_with(queue@, in_queue@) == prop_step(es0, s0));
    }
    assert(prop_run(es0, st.view_with(queue@, in_queue@), fuel as nat) == st.view_with(queue@, in_queue@));
    proof {
        let esf = st.map.entries();
        if queue@.len() == 0 {
            assert forall|m: int| 0 <= m < n implies (#[trigger] esf[m]).0 == es0[m].0 && esf[m].1.callees == es0[m].1.callees by {
                assert(moved_by_rule(es0[m].1, esf[m].1));
            }
            assert forall|k: int| 0 <= k < esf.len() implies #[trigger] settled(esf, esf, k) by {
                assert(!in_queue@[k]);
                let v = st.view_with(queue@, in_queue@);
                assert(v.queued[k] == in_queue@[k] && v.es == esf);
                assert(settled(esf, es0, k));
                lemma_callers_same(esf, es0, k, n as nat);
            }
        }
    }
    std::mem::swap(map, &mut st.map);
    std::mem::swap(&mut module.fns, &mut st.fns);
    st.changed
}

} // verus!
