//! The lint driver: parse, run every rule, then filter and order.
//!
//! | Code  | Name              | Severity |
//! |-------|-------------------|----------|
//! | SL001 | unused_variable   | Warning  |
//! | SL002 | dead_code         | Warning  |
//! | SL003 | missing_return    | Error    |
//! | SL004 | shadow_variable   | Warning  |
//! | SL005 | force_target_hint | Info     |
//! | SL006 | wasm_dom_call     | Error    |
//! | SL007 | js_heavy_compute  | Warning  |

use vstd::prelude::*;
use crate::ast::Module;
use crate::lexer::{Lexer, lex_tokens};
use crate::parser::Parser;
use crate::ir::lower::{lower_module, module_lowerable};
use crate::target::infer::{infer_targets, fits_scoring};
use crate::target::propagate::propagate_targets;
use crate::lint::diag::{LintDiagnostic, LintSpan, Severity};
use crate::lint::{unused_var, dead_code, missing_return, shadow_variable, target_hint};
use crate::text::str_eq;
use vstd::multiset::Multiset;

verus! {

#[derive(Debug, Clone)]
pub struct LintConfig {
    /// Rules switched off.
    pub deny: Vec<&'static str>,
    /// Rules allowed (also left out of the output).
    pub allow: Vec<&'static str>,
}

impl Default for LintConfig {
    fn default() -> (c: LintConfig)
        ensures
            c.deny@.len() == 0,
            c.allow@.len() == 0,
    {
        LintConfig { deny: Vec::new(), allow: Vec::new() }
    }
}

pub struct Linter {
    config: LintConfig,
}

/// `code` is one of `codes`.
pub open spec fn listed(codes: Seq<&'static str>, code: &'static str) -> bool {
    exists|i: int| 0 <= i < codes.len() && codes[i]@ == code@
}

/// Positions never decrease along `ds`.
pub open spec fn ordered(ds: Seq<LintDiagnostic>) -> bool {
    forall|i: int, j: int|
        0 <= i < j < ds.len() ==> (#[trigger] ds[i]).span.line < (#[trigger] ds[j]).span.line || (ds[i].span.line
            == ds[j].span.line && ds[i].span.col <= ds[j].span.col)
}

fn is_listed(codes: &Vec<&'static str>, code: &'static str) -> (b: bool)
    ensures
        b == listed(codes@, code),
{
    let mut i: usize = 0;
    while i < codes.len()
        invariant
            i <= codes@.len(),
            forall|j: int| 0 <= j < i ==> codes@[j]@ != code@,
        decreases codes.len() - i,
    {
        if str_eq(codes[i], code) {
            return true;
        }
        i = i + 1;
    }
    false
}

/// `a` sorts after `b` by (line, column).
fn after(a: &LintDiagnostic, b: &LintDiagnostic) -> (r: bool)
    ensures
        r == (a.span.line > b.span.line || (a.span.line == b.span.line && a.span.col > b.span.col)),
{
    a.span.line > b.span.line || (a.span.line == b.span.line && a.span.col > b.span.col)
}

proof fn lemma_empty_multiset(s: Seq<LintDiagnostic>)
    requires
        s.len() == 0,
    ensures
        s.to_multiset() == Multiset::<LintDiagnostic>::empty(),
{
    vstd::seq_lib::to_multiset_len(s);
    vstd::multiset::lemma_multiset_empty_len(s.to_multiset());
}

/// The diagnostics of `all` whose rule is neither allowed nor denied, in
/// order.
/// `d`, raised to an error where its rule is listed in `allow`.
pub open spec fn promoted(d: LintDiagnostic, allow: Seq<&'static str>) -> LintDiagnostic {
    if listed(allow, d.code) {
        LintDiagnostic {
            code: d.code,
            name: d.name,
            severity: Severity::Error,
            message: d.message,
            span: d.span,
            fix: d.fix,
        }
    } else {
        d
    }
}

pub open spec fn kept_of(all: Seq<LintDiagnostic>, allow: Seq<&'static str>, deny: Seq<&'static str>) -> Seq<LintDiagnostic>
    decreases all.len(),
{
    if all.len() == 0 {
        seq![]
    } else {
        kept_of(all.drop_last(), allow, deny) + if !listed(deny, all.last().code) {
            seq![promoted(all.last(), allow)]
        } else {
            Seq::<LintDiagnostic>::empty()
        }
    }
}

/// What the rules report on `module`, rule by rule: unused bindings (`a`),
/// dead functions (`b`, exactly), missing returns (`c`, exactly), shadowed
/// names (`d`), and the targeting hints (`e`), which only a module that
/// can be lowered gets.
pub open spec fn rule_outputs(
    module: Module,
    a: Seq<LintDiagnostic>,
    b: Seq<LintDiagnostic>,
    c: Seq<LintDiagnostic>,
    d: Seq<LintDiagnostic>,
    e: Seq<LintDiagnostic>,
) -> bool {
    let dead = dead_code::dead_fns(module.items@, dead_code::module_calls(module.items@, module.items@.len() as int));
    let missing = missing_return::missing_fns(module.items@);
    &&& forall|k: int| 0 <= k < a.len() ==> unused_var::is_unused_report(#[trigger] a[k])
    &&& b.len() == dead.len()
    &&& forall|k: int| 0 <= k < b.len() ==> dead_code::dead_report(#[trigger] b[k], dead[k])
    &&& c.len() == missing.len()
    &&& forall|k: int| 0 <= k < c.len() ==> missing_return::missing_report(#[trigger] c[k], missing[k])
    &&& forall|k: int| 0 <= k < d.len() ==> shadow_variable::shadow_report(#[trigger] d[k])
    &&& forall|k: int| 0 <= k < e.len() ==> target_hint::is_hint(#[trigger] e[k])
    &&& !(forall|i: int| 0 <= i < module.items@.len() ==> crate::ir::lower::item_lowerable(#[trigger] module.items@[i])) ==> e.len() == 0
}

/// Sorts by (line, column), keeping the order of equal positions.
fn sort_by_position(ds: Vec<LintDiagnostic>) -> (r: Vec<LintDiagnostic>)
    ensures
        ordered(r@),
        r@.len() == ds@.len(),
        forall|i: int| 0 <= i < r@.len() ==> ds@.contains(#[trigger] r@[i]),
        r@.to_multiset() == ds@.to_multiset(),
{
    broadcast use vstd::multiset::group_multiset_axioms;
    let ghost orig = ds@;
    let mut src = ds;
    let mut rev: Vec<LintDiagnostic> = Vec::new();
    proof {
        lemma_empty_multiset(rev@);
        assert(src@.to_multiset().add(rev@.to_multiset()) =~= orig.to_multiset());
    }
    while src.len() > 0
        invariant
            src@.len() + rev@.len() == orig.len(),
            forall|k: int| 0 <= k < src@.len() ==> src@[k] == orig[k],
            forall|k: int| 0 <= k < rev@.len() ==> orig.contains(#[trigger] rev@[k]),
            src@.to_multiset().add(rev@.to_multiset()) == orig.to_multiset(),
        decreases src.len(),
    {
        let ghost k0 = src@.len() - 1;
        let ghost s0 = src@;
        let ghost r0 = rev@;
        let d = src.pop().unwrap();
        assert(orig[k0] == d);
        rev.push(d);
        proof {
            assert(s0 =~= src@.push(d));
            vstd::seq_lib::to_multiset_build(src@, d);
            vstd::seq_lib::to_multiset_build(r0, d);
        }
    }
    proof {
        lemma_empty_multiset(src@);
    }
    let ghost total = rev@.len();
    let mut out: Vec<LintDiagnostic> = Vec::new();
    proof {
        lemma_empty_multiset(out@);
        assert(out@.to_multiset().add(rev@.to_multiset()) =~= orig.to_multiset());
    }
    while rev.len() > 0
        invariant
            ordered(out@),
            out@.len() + rev@.len() == total,
            total == orig.len(),
            forall|k: int| 0 <= k < rev@.len() ==> orig.contains(#[trigger] rev@[k]),
            forall|k: int| 0 <= k < out@.len() ==> orig.contains(#[trigger] out@[k]),
            out@.to_multiset().add(rev@.to_multiset()) == orig.to_multiset(),
        decreases rev.len(),
    {
        let ghost k0 = rev@.len() - 1;
        let ghost last = rev@[k0];
        let ghost r0 = rev@;
        let d = rev.pop().unwrap();
        assert(d == last);
        proof {
            assert(r0 =~= rev@.push(d));
            vstd::seq_lib::to_multiset_build(rev@, d);
        }
        let mut p: usize = out.len();
        while p > 0 && after(&out[p - 1], &d)
            invariant
                p <= out@.len(),
                forall|j: int| p <= j < out@.len() ==> (#[trigger] out@[j]).span.line > d.span.line || (out@[j].span.line == d.span.line && out@[j].span.col > d.span.col),
            decreases p,
        {
            p = p - 1;
        }
        let ghost ov = out@;
        let ghost dv = d;
        assert(orig.contains(dv));
        out.insert(p, d);
        proof {
            vstd::seq_lib::to_multiset_insert(ov, p as int, dv);
            assert(out@ == ov.insert(p as int, dv));
            assert forall|k: int| 0 <= k < out@.len() implies orig.contains(#[trigger] out@[k]) by {
                if k < p {
                    assert(out@[k] == ov[k]);
                } else if k > p {
                    assert(out@[k] == ov[k - 1]);
                }
            }
            assert forall|i: int, j: int| 0 <= i < j < out@.len() implies (#[trigger] out@[i]).span.line < (#[trigger] out@[j]).span.line
                || (out@[i].span.line == out@[j].span.line && out@[i].span.col <= out@[j].span.col) by {
                if j < p {
                    assert(out@[i] == ov[i] && out@[j] == ov[j]);
                } else if j == p {
                    assert(out@[j] == dv);
                    if p > 0 {
                        assert(out@[i] == ov[i]);
                        assert(!(ov[p - 1].span.line > dv.span.line || (ov[p - 1].span.line == dv.span.line && ov[p - 1].span.col > dv.span.col)));
                    }
                } else if i == p {
                    assert(out@[i] == dv && out@[j] == ov[j - 1]);
                } else if i < p {
                    assert(out@[i] == ov[i] && out@[j] == ov[j - 1]);
                } else {
                    assert(out@[i] == ov[i - 1] && out@[j] == ov[j - 1]);
                }
            }
        }
    }
    proof {
        lemma_empty_multiset(rev@);
    }
    out
}

impl Linter {
    /// The configuration.
    pub closed spec fn cfg(&self) -> LintConfig {
        self.config
    }

    pub fn new(config: LintConfig) -> (l: Linter)
        ensures
            l.cfg() == config,
    {
        Linter { config }
    }

    /// Lexes, parses and lints `src`.  Lexical errors, else syntax errors,
    /// come back as `SL000` diagnostics at line 1, column 1.
    pub fn check_src(&self, src: &str) -> (diags: Vec<LintDiagnostic>)
        requires
            4 * src@.len() < usize::MAX,
        ensures
            lex_tokens(src@, 0).1.len() > 0 ==> diags@.len() == lex_tokens(src@, 0).1.len() && forall|i: int|
                0 <= i < diags@.len() ==> (#[trigger] diags@[i]).code@ == "SL000"@ && diags@[i].name@ == "lex_error"@
                    && diags@[i].severity == Severity::Error && diags@[i].message@ == lex_tokens(src@, 0).1[i].message_spec()
                    && diags@[i].span == (LintSpan { start: 0, end: 0, line: 1, col: 1 }) && diags@[i].fix is None,
            ordered(diags@),
    {
        let (tokens, lex_errors) = Lexer::new(src, 0).tokenize();
        if lex_errors.len() > 0 {
            let mut out: Vec<LintDiagnostic> = Vec::new();
            let mut i: usize = 0;
            while i < lex_errors.len()
                invariant
                    i <= lex_errors@.len(),
                    out@.len() == i,
                    forall|k: int| 0 <= k < i ==> (#[trigger] out@[k]).code@ == "SL000"@ && out@[k].name@ == "lex_error"@,
                    forall|k: int| 0 <= k < i ==> (#[trigger] out@[k]).span == (LintSpan { start: 0, end: 0, line: 1, col: 1 }),
                    forall|k: int| 0 <= k < i ==> (#[trigger] out@[k]).severity == Severity::Error && out@[k].fix is None
                        && out@[k].message@ == lex_errors@[k].message_spec(),
                decreases lex_errors.len() - i,
            {
                out.push(LintDiagnostic {
                    code: "SL000",
                    name: "lex_error",
                    severity: Severity::Error,
                    message: lex_errors[i].message(),
                    span: LintSpan { start: 0, end: 0, line: 1, col: 1 },
                    fix: None,
                });
                i = i + 1;
            }
            return out;
        }
        let (module, parse_errors) = Parser::new(tokens, 0).parse();
        if parse_errors.len() > 0 {
            let mut out: Vec<LintDiagnostic> = Vec::new();
            let mut i: usize = 0;
            while i < parse_errors.len()
                invariant
                    out@.len() == i,
                    i <= parse_errors@.len(),
                    forall|k: int| 0 <= k < i ==> (#[trigger] out@[k]).span == (LintSpan { start: 0, end: 0, line: 1, col: 1 }),
                decreases parse_errors.len() - i,
            {
                out.push(LintDiagnostic {
                    code: "SL000",
                    name: "parse_error",
                    severity: Severity::Error,
                    message: parse_errors[i].message(),
                    span: LintSpan { start: 0, end: 0, line: 1, col: 1 },
                    fix: None,
                });
                i = i + 1;
            }
            return out;
        }
        self.check_module(src, &module)
    }

    /// Lints a parsed module: the AST rules, then the targeting rules over
    /// its IR.  Denied rules are left out, allowed rules are reported as
    /// errors, and the rest is ordered by position.  The targeting rules need the module's IR, so they run
    /// only when the module can be lowered and scored.
    pub fn check_module(&self, src: &str, module: &Module) -> (diags: Vec<LintDiagnostic>)
        ensures
            ordered(diags@),
            forall|i: int| 0 <= i < diags@.len() ==> !listed(self.cfg().deny@, (#[trigger] diags@[i]).code) && (listed(
                self.cfg().allow@,
                diags@[i].code,
            ) ==> diags@[i].severity == Severity::Error),
            exists|a: Seq<LintDiagnostic>, b: Seq<LintDiagnostic>, c: Seq<LintDiagnostic>, d: Seq<LintDiagnostic>, e: Seq<LintDiagnostic>|
                #[trigger] rule_outputs(*module, a, b, c, d, e) && diags@.to_multiset() == kept_of(
                    a + b + c + d + e,
                    self.cfg().allow@,
                    self.cfg().deny@,
                ).to_multiset(),
    {
        let mut diags: Vec<LintDiagnostic> = Vec::new();
        unused_var::check(src, module, &mut diags);
        let ghost a = diags@;
        dead_code::check(src, module, &mut diags);
        let ghost ab = diags@;
        missing_return::check(src, module, &mut diags);
        let ghost abc = diags@;
        shadow_variable::check(src, module, &mut diags);
        let ghost abcd = diags@;
        proof {
            assert(a.is_prefix_of(ab));
            assert(ab.is_prefix_of(abc));
        }
        if module_lowerable(module) {
            let mut ir = lower_module(module);
            let mut all_fit = true;
            let mut k: usize = 0;
            while k < ir.fns.len()
                invariant
                    k <= ir.fns@.len(),
                    all_fit ==> forall|j: int| 0 <= j < k ==> crate::target::infer::scorable(#[trigger] ir.fns@[j]),
                decreases ir.fns.len() - k,
            {
                if !fits_scoring(&ir.fns[k]) {
                    all_fit = false;
                }
                k = k + 1;
            }
            if all_fit {
                let mut map = infer_targets(&mut ir);
                let _changed = propagate_targets(&mut ir, &mut map);
                target_hint::check(&map, &mut diags);
            }
        }
        let ghost all = diags@;
        let ghost b = ab.subrange(a.len() as int, ab.len() as int);
        let ghost c = abc.subrange(ab.len() as int, abc.len() as int);
        let ghost d = abcd.subrange(abc.len() as int, abcd.len() as int);
        let ghost e = all.subrange(abcd.len() as int, all.len() as int);
        proof {
            assert(abcd.is_prefix_of(all));
            assert(abc.is_prefix_of(abcd));
            assert(ab =~= a + b);
            assert(abc =~= ab + c);
            assert(abcd =~= abc + d);
            assert(all =~= abcd + e);
            assert(all =~= a + b + c + d + e);
            assert forall|k: int| 0 <= k < a.len() implies unused_var::is_unused_report(#[trigger] a[k]) by {}
            assert forall|k: int| 0 <= k < b.len() implies dead_code::dead_report(#[trigger] b[k], dead_code::dead_fns(module.items@, dead_code::module_calls(module.items@, module.items@.len() as int))[k]) by {
                assert(b[k] == ab[a.len() + k]);
            }
            assert forall|k: int| 0 <= k < c.len() implies missing_return::missing_report(#[trigger] c[k], missing_return::missing_fns(module.items@)[k]) by {
                assert(c[k] == abc[ab.len() + k]);
            }
            assert forall|k: int| 0 <= k < d.len() implies shadow_variable::shadow_report(#[trigger] d[k]) by {
                assert(d[k] == abcd[abc.len() + k]);
            }
            assert(rule_outputs(*module, a, b, c, d, e));
        }
        let mut kept: Vec<LintDiagnostic> = Vec::new();
        let mut rest = diags;
        let mut rev: Vec<LintDiagnostic> = Vec::new();
        while rest.len() > 0
            invariant
                all == rest@ + rev@.reverse(),
            decreases rest.len(),
        {
            let x = rest.pop().unwrap();
            let ghost before = rev@;
            rev.push(x);
            assert(rev@.reverse() =~= seq![x] + before.reverse());
            assert(all =~= rest@ + rev@.reverse());
        }
        assert(all =~= rev@.reverse());
        while rev.len() > 0
            invariant
                rev@.len() <= all.len(),
                all.subrange(all.len() - rev@.len(), all.len() as int) == rev@.reverse(),
                kept@ == kept_of(all.subrange(0, all.len() - rev@.len()), self.config.allow@, self.config.deny@),
                forall|i: int| 0 <= i < kept@.len() ==> !listed(self.config.deny@, (#[trigger] kept@[i]).code) && (listed(
                    self.config.allow@,
                    kept@[i].code,
                ) ==> kept@[i].severity == Severity::Error),
            decreases rev.len(),
        {
            let ghost k = all.len() - rev@.len();
            let ghost rv = rev@;
            let mut x = rev.pop().unwrap();
            proof {
                assert(rv =~= rev@.push(x));
                assert(rv.reverse() =~= seq![x] + rev@.reverse());
                assert(all[k] == all.subrange(k, all.len() as int)[0]);
                assert(all.subrange(k + 1, all.len() as int) =~= all.subrange(k, all.len() as int).drop_first());
                let pre = all.subrange(0, k + 1);
                assert(pre.drop_last() =~= all.subrange(0, k));
                assert(pre.last() == x);
            }
            let allowed = is_listed(&self.config.allow, x.code);
            let denied = is_listed(&self.config.deny, x.code);
            if !denied {
                if allowed {
                    x.severity = Severity::Error;
                }
                kept.push(x);
            }
        }
        assert(all.subrange(0, all.len() as int) =~= all);
        sort_by_position(kept)
    }
}

} // verus!
