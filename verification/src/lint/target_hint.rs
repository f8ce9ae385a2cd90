//! SL005 — force_target_hint (Info), SL006 — wasm_dom_call (Error),
//! SL007 — js_heavy_compute (Warning): a `#[wasm]` / `#[js]` attribute
//! set against the targeting analysis, or consistent with it.

use vstd::prelude::*;
use crate::ir::ir::Target;
use crate::target::target::{TargetMap, FnTargetV, record_at, record_count};
use crate::lint::diag::{LintDiagnostic, LintSpan, Severity};
use crate::text::{string_of, push_str, i64_to_string, int_str};

verus! {

/// Scores at or above this suggest WASM.
pub const WASM_THRESHOLD: i32 = 60;

/// Scores below this indicate DOM calls.
pub const DOM_NEGATIVE: i32 = -100;

/// The rule a forced record triggers.
pub open spec fn hint_code(target: Target, score: i32) -> Seq<char> {
    if target == Target::Wasm && score < -100 {
        "SL006"@
    } else if target == Target::Js && score >= 60 {
        "SL007"@
    } else {
        "SL005"@
    }
}

/// The records that a `#[wasm]` / `#[js]` attribute forced, in order.
pub open spec fn forced_recs(es: Seq<(Seq<char>, FnTargetV)>) -> Seq<FnTargetV>
    decreases es.len(),
{
    if es.len() == 0 {
        seq![]
    } else {
        forced_recs(es.drop_last()) + if es.last().1.forced {
            seq![es.last().1]
        } else {
            Seq::<FnTargetV>::empty()
        }
    }
}

/// `d` is the diagnostic for forced record `r`.
pub open spec fn hint_for(d: LintDiagnostic, r: FnTargetV) -> bool {
    let score = int_str(r.score as int);
    &&& d.code@ == hint_code(r.target, r.score)
    &&& d.span == (LintSpan { start: 0, end: 0, line: 1, col: 1 })
    &&& if r.target == Target::Wasm && r.score < -100 {
        &&& d.name@ == "wasm_dom_call"@
        &&& d.severity == Severity::Error
        &&& d.message@ == "`"@ + r.name + "` is annotated `#[wasm]` but its analysis score ("@ + score
            + ") indicates DOM API calls \u{2014} WebAssembly cannot call DOM APIs directly"@
        &&& d.fix matches Some(f) && f@ == "remove `#[wasm]` or move DOM calls to a JS helper function"@
    } else if r.target == Target::Js && r.score >= 60 {
        &&& d.name@ == "js_heavy_compute"@
        &&& d.severity == Severity::Warning
        &&& d.message@ == "`"@ + r.name + "` is annotated `#[js]` but its analysis score ("@ + score
            + ") suggests it would run significantly faster in WebAssembly"@
        &&& d.fix matches Some(f) && f@ == "remove `#[js]` to let the compiler auto-target this function"@
    } else {
        &&& d.name@ == "force_target_hint"@
        &&& d.severity == Severity::Info
        &&& d.message@ == "`"@ + r.name + "` has an explicit `#["@ + (if r.target == Target::Wasm { "wasm"@ } else { "js"@ })
            + "]` override (compiler would choose the same target)"@
        &&& d.fix matches Some(f) && f@ == "you may remove the annotation to let the compiler decide"@
    }
}

/// `d` is one of this rule's diagnostics.
pub open spec fn is_hint(d: LintDiagnostic) -> bool {
    d.code@ == "SL005"@ || d.code@ == "SL006"@ || d.code@ == "SL007"@
}

/// One diagnostic for every forced record of the map, in order.
pub fn check(map: &TargetMap, out: &mut Vec<LintDiagnostic>)
    ensures
        old(out)@.is_prefix_of(final(out)@),
        final(out)@.len() == old(out)@.len() + forced_recs(map.entries()).len(),
        forall|k: int|
            0 <= k < forced_recs(map.entries()).len() ==> hint_for(
                #[trigger] final(out)@[old(out)@.len() + k],
                forced_recs(map.entries())[k],
            ),
        forall|k: int| old(out)@.len() <= k < final(out)@.len() ==> is_hint(#[trigger] final(out)@[k]),
{
    let n = record_count(map);
    let ghost es = map.entries();
    let mut i: usize = 0;
    while i < n
        invariant
            n == es.len(),
            es == map.entries(),
            i <= n,
            out@.len() == old(out)@.len() + forced_recs(es.subrange(0, i as int)).len(),
            out@.subrange(0, old(out)@.len() as int) == old(out)@,
            forall|k: int|
                0 <= k < forced_recs(es.subrange(0, i as int)).len() ==> hint_for(
                    #[trigger] out@[old(out)@.len() + k],
                    forced_recs(es.subrange(0, i as int))[k],
                ),
        decreases n - i,
    {
        proof {
            let sub = es.subrange(0, i + 1);
            assert(sub.drop_last() =~= es.subrange(0, i as int));
        }
        let rec = record_at(map, i);
        let dummy_span = LintSpan { start: 0, end: 0, line: 1, col: 1 };
        if rec.forced {
            let score = i64_to_string(rec.score as i64);
            let ghost before = out@;
            if rec.target == Target::Wasm && rec.score < DOM_NEGATIVE {
                let mut message = string_of("`");
                push_str(&mut message, rec.name.as_str());
                push_str(&mut message, "` is annotated `#[wasm]` but its analysis score (");
                push_str(&mut message, score.as_str());
                push_str(&mut message, ") indicates DOM API calls \u{2014} WebAssembly cannot call DOM APIs directly");
                out.push(LintDiagnostic {
                    code: "SL006",
                    name: "wasm_dom_call",
                    severity: Severity::Error,
                    message,
                    span: dummy_span,
                    fix: Some(string_of("remove `#[wasm]` or move DOM calls to a JS helper function")),
                });
            } else if rec.target == Target::Js && rec.score >= WASM_THRESHOLD {
                let mut message = string_of("`");
                push_str(&mut message, rec.name.as_str());
                push_str(&mut message, "` is annotated `#[js]` but its analysis score (");
                push_str(&mut message, score.as_str());
                push_str(&mut message, ") suggests it would run significantly faster in WebAssembly");
                out.push(LintDiagnostic {
                    code: "SL007",
                    name: "js_heavy_compute",
                    severity: Severity::Warning,
                    message,
                    span: dummy_span,
                    fix: Some(string_of("remove `#[js]` to let the compiler auto-target this function")),
                });
            } else {
                let mut message = string_of("`");
                push_str(&mut message, rec.name.as_str());
                push_str(&mut message, "` has an explicit `#[");
                push_str(&mut message, if rec.target == Target::Wasm { "wasm" } else { "js" });
                push_str(&mut message, "]` override (compiler would choose the same target)");
                out.push(LintDiagnostic {
                    code: "SL005",
                    name: "force_target_hint",
                    severity: Severity::Info,
                    message,
                    span: dummy_span,
                    fix: Some(string_of("you may remove the annotation to let the compiler decide")),
                });
            }
            assert(out@.subrange(0, old(out)@.len() as int) =~= before.subrange(0, old(out)@.len() as int));
            proof {
                let prev = forced_recs(es.subrange(0, i as int));
                let sub = es.subrange(0, i + 1);
                assert(forced_recs(sub) == prev.push(rec@));
                assert forall|k: int| 0 <= k < forced_recs(sub).len() implies hint_for(
                    #[trigger] out@[old(out)@.len() + k],
                    forced_recs(sub)[k],
                ) by {
                    if k < prev.len() {
                        assert(out@[old(out)@.len() + k] == before[old(out)@.len() + k]);
                    }
                }
            }
        }
        i = i + 1;
    }
    assert(es.subrange(0, n as int) =~= es);
    assert(old(out)@ =~= out@.subrange(0, old(out)@.len() as int));
    assert forall|k: int| old(out)@.len() <= k < out@.len() implies is_hint(#[trigger] out@[k]) by {
        let j = k - old(out)@.len();
        assert(hint_for(out@[old(out)@.len() + j], forced_recs(es)[j]));
    }
}

} // verus!
