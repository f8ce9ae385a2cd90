//! Automatic WASM/JS target inference.
//!
//! # Scoring rubric
//!
//! | Signal | Score |
//! |--------|-------|
//! | Annotated `#[wasm]` | +1000 (forces) |
//! | Annotated `#[js]` | -1000 (forces) |
//! | `async` (async helpers tend to be compute) | +5 |
//! | `async` and named `on*` / `handle*` (event handler) | -200 |
//! | Each call of `console.log` | -10 |
//! | Calls a DOM API | -1000 |
//! | Calls `Math.*` ≥ 3 times | +25 (else +6 per call) |
//! | Multiply in a loop body (FMA pattern) | +30 |
//! | ≥ 10 numeric ops in a loop body | +50 (else +4 per op) |
//! | Returns a numeric array type | +40 |
//!
//! Score ≥ 50 → `Target::Wasm`; otherwise → `Target::Js` (the safer default).

use vstd::prelude::*;
use crate::ir::ir::{IrModule, IrFn, IrType, Instr, Value, Constant, BinOp, Terminator, Target, BasicBlock};
use crate::target::target::{FnTarget, FnTargetV, TargetMap, entry_insert};
use crate::text::{string_of, push_str, starts_with, str_eq, has_prefix, strictly_sorted, insert_sorted};

verus! {

/// Scores at or above this go to WASM.
pub const WASM_THRESHOLD: i32 = 50;

// ── Names ────────────────────────────────────────────────────────────────────

/// A `Math` function, by its name.
pub open spec fn math_name(n: Seq<char>) -> bool {
    has_prefix(n, "Math."@) || n == "sqrt"@ || n == "abs"@ || n == "floor"@ || n == "ceil"@ || n
        == "round"@ || n == "pow"@ || n == "sin"@ || n == "cos"@ || n == "tan"@ || n == "exp"@ || n
        == "log"@ || n == "log2"@ || n == "log10"@ || n == "min"@ || n == "max"@ || n == "clamp"@
}

/// A DOM API, by its name.
pub open spec fn dom_name(n: Seq<char>) -> bool {
    has_prefix(n, "document."@) || has_prefix(n, "window."@) || n == "addEventListener"@ || n
        == "querySelector"@ || n == "getElementById"@ || has_prefix(n, "__method_addEventListener"@)
        || has_prefix(n, "__method_querySelector"@) || has_prefix(n, "__method_getElementById"@)
}

fn is_math_call(name: &str) -> (b: bool)
    ensures
        b == math_name(name@),
{
    starts_with(name, "Math.") || str_eq(name, "sqrt") || str_eq(name, "abs") || str_eq(name, "floor")
        || str_eq(name, "ceil") || str_eq(name, "round") || str_eq(name, "pow") || str_eq(name, "sin")
        || str_eq(name, "cos") || str_eq(name, "tan") || str_eq(name, "exp") || str_eq(name, "log")
        || str_eq(name, "log2") || str_eq(name, "log10") || str_eq(name, "min") || str_eq(name, "max")
        || str_eq(name, "clamp")
}

fn is_dom_call(name: &str) -> (b: bool)
    ensures
        b == dom_name(name@),
{
    starts_with(name, "document.") || starts_with(name, "window.") || str_eq(name, "addEventListener")
        || str_eq(name, "querySelector") || str_eq(name, "getElementById") || starts_with(
        name,
        "__method_addEventListener",
    ) || starts_with(name, "__method_querySelector") || starts_with(name, "__method_getElementById")
}

// ── Counting instructions ────────────────────────────────────────────────────

/// The name a call instruction calls, when it calls a global or a string.
pub open spec fn called_name(i: Instr) -> Option<Seq<char>> {
    match i {
        Instr::Call { func: Value::Global(n), .. } => Some(n@),
        Instr::Call { func: Value::Const(Constant::Str(n)), .. } => Some(n@),
        _ => None,
    }
}

/// The kinds of instruction the rubric counts.
pub enum Signal {
    Console,
    Math,
    Dom,
    Mul,
    Numeric,
}

pub open spec fn signals(i: Instr, s: Signal) -> bool {
    match s {
        Signal::Console => called_name(i) == Some("console.log"@),
        Signal::Math => called_name(i) matches Some(n) && math_name(n),
        Signal::Dom => called_name(i) matches Some(n) && dom_name(n),
        Signal::Mul => i matches Instr::BinOp { op: BinOp::Mul, .. },
        Signal::Numeric => i matches Instr::BinOp { op: BinOp::Mul, .. } || i matches Instr::BinOp {
            op: BinOp::Add,
            ..
        } || i matches Instr::BinOp { op: BinOp::Sub, .. } || i matches Instr::BinOp {
            op: BinOp::Div,
            ..
        } || i matches Instr::BinOp { op: BinOp::Rem, .. },
    }
}

pub open spec fn count_in(is: Seq<Instr>, s: Signal) -> nat
    decreases is.len(),
{
    if is.len() == 0 {
        0
    } else {
        count_in(is.drop_last(), s) + if signals(is.last(), s) { 1nat } else { 0nat }
    }
}

/// Block `k` ends with a jump back to an earlier block.
pub open spec fn loop_body(t: Terminator, k: int) -> bool {
    match t {
        Terminator::Jump(b) => (b.0 as int) < k,
        Terminator::Branch { then_bb, else_bb, .. } => (then_bb.0 as int) < k || (else_bb.0 as int) < k,
        _ => false,
    }
}

/// Signals of kind `s` in the first `n` blocks (only loop bodies when
/// `loops` is set).
pub open spec fn count_blocks(bs: Seq<BasicBlock>, n: int, s: Signal, loops: bool) -> nat
    decreases n,
{
    if n <= 0 {
        0
    } else {
        count_blocks(bs, n - 1, s, loops) + if !loops || loop_body(bs[n - 1].term, n - 1) {
            count_in(bs[n - 1].instrs@, s)
        } else {
            0
        }
    }
}

pub open spec fn count_fn(f: IrFn, s: Signal, loops: bool) -> nat {
    count_blocks(f.blocks@, f.blocks@.len() as int, s, loops)
}

pub open spec fn numeric_array(t: IrType) -> bool {
    match t {
        IrType::Ref(inner) => *inner is F64 || *inner is I32 || *inner is I64,
        _ => false,
    }
}

/// An `async` function named like an event handler.
pub open spec fn event_handler(f: IrFn) -> bool {
    f.is_async && (has_prefix(f.name@, "on"@) || has_prefix(f.name@, "handle"@))
}

/// The penalties of the rubric, from the event-handler flag, the
/// `console.log` count and whether a DOM API is called.
pub open spec fn penalty_of(ev: bool, cc: int, dom: bool) -> int {
    (if ev { -200int } else { 0 }) - 10 * cc + (if dom { -1000int } else { 0 })
}

/// The score from the rubric's signals.
pub open spec fn score_of(asy: bool, ev: bool, cc: int, dom: bool, mc: int, mul: bool, num: int, arr: bool) -> int {
    (if asy { 5int } else { 0 }) + penalty_of(ev, cc, dom) + (if mc >= 3 { 25 } else { 6 * mc }) + (if mul { 30int } else { 0 }) + (if num
        >= 10 {
        50
    } else {
        4 * num
    }) + (if arr { 40int } else { 0 })
}

/// The reasons recorded for the signals, in rubric order.
pub open spec fn reasons_of(ev: bool, dom: bool, mc: int, mul: bool, num: int, arr: bool) -> Seq<Seq<char>> {
    (if ev { seq!["async event handler naming pattern"@] } else { seq![] }) + (if dom {
        seq!["calls a DOM API"@]
    } else {
        seq![]
    }) + (if mc >= 3 { seq!["calls Math.* 3+ times"@] } else { seq![] }) + (if mul {
        seq!["multiply inside loop body (FMA pattern)"@]
    } else {
        seq![]
    }) + (if num >= 10 { seq![">= 10 numeric ops inside loop body"@] } else { seq![] }) + (if arr {
        seq!["returns a numeric array type"@]
    } else {
        seq![]
    })
}

/// The penalties of a function's signals.
pub open spec fn penalties(f: IrFn) -> int {
    penalty_of(event_handler(f), count_fn(f, Signal::Console, false) as int, count_fn(f, Signal::Dom, false) > 0)
}

/// The inference score of a function no attribute forces.
pub open spec fn score_spec(f: IrFn) -> int {
    score_of(
        f.is_async,
        event_handler(f),
        count_fn(f, Signal::Console, false) as int,
        count_fn(f, Signal::Dom, false) > 0,
        count_fn(f, Signal::Math, false) as int,
        count_fn(f, Signal::Mul, true) > 0,
        count_fn(f, Signal::Numeric, true) as int,
        numeric_array(f.ret_ty),
    )
}

/// The reasons recorded for the score, in rubric order.
pub open spec fn reasons_spec(f: IrFn) -> Seq<Seq<char>> {
    reasons_of(
        event_handler(f),
        count_fn(f, Signal::Dom, false) > 0,
        count_fn(f, Signal::Math, false) as int,
        count_fn(f, Signal::Mul, true) > 0,
        count_fn(f, Signal::Numeric, true) as int,
        numeric_array(f.ret_ty),
    )
}

/// `parts` joined by `sep`.
pub open spec fn join(parts: Seq<Seq<char>>, sep: Seq<char>) -> Seq<char>
    decreases parts.len(),
{
    if parts.len() == 0 {
        seq![]
    } else if parts.len() == 1 {
        parts[0]
    } else {
        join(parts.drop_last(), sep) + sep + parts.last()
    }
}

/// The attribute that forces a target: the first `wasm` or `js`.
pub open spec fn forcing_attr(attrs: Seq<Seq<char>>) -> Option<Target>
    decreases attrs.len(),
{
    if attrs.len() == 0 {
        None
    } else if attrs[0] == "wasm"@ {
        Some(Target::Wasm)
    } else if attrs[0] == "js"@ {
        Some(Target::Js)
    } else {
        forcing_attr(attrs.drop_first())
    }
}

/// The names of the globals `f` calls, sorted and without repeats.
pub open spec fn callee_set(f: IrFn) -> Set<Seq<char>> {
    Set::new(
        |n: Seq<char>|
            exists|b: int, k: int|
                0 <= b < f.blocks@.len() && 0 <= k < f.blocks@[b].instrs@.len()
                    && global_call(#[trigger] f.blocks@[b].instrs@[k]) == Some(n),
    )
}

pub open spec fn global_call(i: Instr) -> Option<Seq<char>> {
    match i {
        Instr::Call { func: Value::Global(n), .. } => Some(n@),
        _ => None,
    }
}

/// What scoring `f` records.
pub open spec fn scored(f: IrFn, r: FnTargetV) -> bool {
    &&& r.name == f.name@
    &&& strictly_sorted(r.callees)
    &&& r.callees.to_set() == callee_set(f)
    &&& match forcing_attr(f.attrs@.map_values(|a: String| a@)) {
        Some(Target::Wasm) => r.target == Target::Wasm && r.forced && r.score == 1000 && r.reason
            == "forced by #[wasm] attribute"@,
        Some(_) => r.target == Target::Js && r.forced && r.score == -1000 && r.reason
            == "forced by #[js] attribute"@,
        None => {
            &&& r.score == score_spec(f)
            &&& r.target == if score_spec(f) >= 50 { Target::Wasm } else { Target::Js }
            &&& !r.forced
            &&& r.reason == if reasons_spec(f).len() == 0 {
                if score_spec(f) >= 50 {
                    "score above WASM threshold"@
                } else {
                    "default: JS (score below WASM threshold)"@
                }
            } else {
                join(reasons_spec(f), "; "@)
            }
        },
    }
}

// ── Executable scoring ───────────────────────────────────────────────────────

fn called_name_exec(i: &Instr) -> (r: Option<&String>)
    ensures
        match r {
            Some(n) => called_name(*i) == Some(n@),
            None => called_name(*i) is None,
        },
{
    match i {
        Instr::Call { func, .. } => match func {
            Value::Global(n) => Some(n),
            Value::Const(Constant::Str(n)) => Some(n),
            _ => None,
        },
        _ => None,
    }
}

/// Rough back-edge detection: block `bb_idx` is inside a loop if its
/// terminator targets an earlier block.
fn is_loop_body(bb_idx: usize, f: &IrFn) -> (b: bool)
    requires
        bb_idx < f.blocks@.len(),
    ensures
        b == loop_body(f.blocks@[bb_idx as int].term, bb_idx as int),
{
    match &f.blocks[bb_idx].term {
        Terminator::Jump(t) => (t.0 as usize) < bb_idx,
        Terminator::Branch { then_bb, else_bb, .. } => (then_bb.0 as usize) < bb_idx || (else_bb.0 as usize)
            < bb_idx,
        _ => false,
    }
}

fn is_numeric_array_ty(ty: &IrType) -> (b: bool)
    ensures
        b == numeric_array(*ty),
{
    match ty {
        IrType::Ref(inner) => match &**inner {
            IrType::F64 | IrType::I32 | IrType::I64 => true,
            _ => false,
        },
        _ => false,
    }
}

/// The names of the globals `f` calls, sorted, each once.
fn collect_callees(f: &IrFn) -> (out: Vec<String>)
    ensures
        strictly_sorted(out@.map_values(|x: String| x@)),
        out@.map_values(|x: String| x@).to_set() == callee_set(*f),
{
    let mut out: Vec<String> = Vec::new();
    let mut b: usize = 0;
    while b < f.blocks.len()
        invariant
            b <= f.blocks@.len(),
            strictly_sorted(out@.map_values(|x: String| x@)),
            out@.map_values(|x: String| x@).to_set() == Set::new(
                |n: Seq<char>|
                    exists|bb: int, k: int|
                        0 <= bb < b && 0 <= k < f.blocks@[bb].instrs@.len() && global_call(
                            #[trigger] f.blocks@[bb].instrs@[k],
                        ) == Some(n),
            ),
        decreases f.blocks.len() - b,
    {
        let bb = &f.blocks[b];
        let mut k: usize = 0;
        while k < bb.instrs.len()
            invariant
                b < f.blocks@.len(),
                *bb == f.blocks@[b as int],
                k <= bb.instrs@.len(),
                strictly_sorted(out@.map_values(|x: String| x@)),
                out@.map_values(|x: String| x@).to_set() == Set::new(
                    |n: Seq<char>|
                        (exists|c: int, j: int|
                            0 <= c < b && 0 <= j < f.blocks@[c].instrs@.len() && global_call(
                                #[trigger] f.blocks@[c].instrs@[j],
                            ) == Some(n)) || (exists|j: int|
                            0 <= j < k && global_call(#[trigger] bb.instrs@[j]) == Some(n)),
                ),
            decreases bb.instrs.len() - k,
        {
            let ghost before = out@.map_values(|x: String| x@).to_set();
            match &bb.instrs[k] {
                Instr::Call { func: Value::Global(name), .. } => {
                    insert_sorted(&mut out, name.clone());
                },
                _ => {},
            }
            proof {
                let now = out@.map_values(|x: String| x@).to_set();
                let target = Set::new(
                    |n: Seq<char>|
                        (exists|c: int, j: int|
                            0 <= c < b && 0 <= j < f.blocks@[c].instrs@.len() && global_call(
                                #[trigger] f.blocks@[c].instrs@[j],
                            ) == Some(n)) || (exists|j: int|
                            0 <= j < k + 1 && global_call(#[trigger] bb.instrs@[j]) == Some(n)),
                );
                assert(now =~= target) by {
                    assert forall|n: Seq<char>| now.contains(n) <==> target.contains(n) by {
                        if global_call(bb.instrs@[k as int]) == Some(n) {
                            assert(target.contains(n));
                        }
                        if target.contains(n) && !before.contains(n) {
                            let j = choose|j: int| 0 <= j < k + 1 && global_call(#[trigger] bb.instrs@[j]) == Some(n);
                            assert(j == k);
                        }
                    }
                }
            }
            k = k + 1;
        }
        proof {
            let now = out@.map_values(|x: String| x@).to_set();
            let target = Set::new(
                |n: Seq<char>|
                    exists|c: int, j: int|
                        0 <= c < b + 1 && 0 <= j < f.blocks@[c].instrs@.len() && global_call(
                            #[trigger] f.blocks@[c].instrs@[j],
                        ) == Some(n),
            );
            assert(now =~= target) by {
                assert forall|n: Seq<char>| now.contains(n) <==> target.contains(n) by {
                    if now.contains(n) {
                        if exists|j: int| 0 <= j < k && global_call(#[trigger] bb.instrs@[j]) == Some(n) {
                            let j = choose|j: int| 0 <= j < k && global_call(#[trigger] bb.instrs@[j]) == Some(n);
                            assert(global_call(f.blocks@[b as int].instrs@[j]) == Some(n));
                        }
                    }
                    if target.contains(n) {
                        let (c, j) = choose|c: int, j: int|
                            0 <= c < b + 1 && 0 <= j < f.blocks@[c].instrs@.len() && global_call(
                                #[trigger] f.blocks@[c].instrs@[j],
                            ) == Some(n);
                        if c == b {
                            assert(global_call(bb.instrs@[j]) == Some(n));
                        }
                    }
                }
            }
        }
        b = b + 1;
    }
    out
}

/// The record of a function whose target an attribute forces.
fn forced(f: &IrFn, target: Target, reason: &str, score: i32) -> (r: FnTarget)
    ensures
        r.name@ == f.name@,
        r.target == target,
        r.forced,
        r.reason@ == reason@,
        r.score == score,
        strictly_sorted(r@.callees),
        r@.callees.to_set() == callee_set(*f),
{
    FnTarget {
        name: f.name.clone(),
        target,
        forced: true,
        reason: string_of(reason),
        score,
        callees: collect_callees(f),
    }
}

/// The forcing attribute of `attrs`, if any.
fn find_forcing(attrs: &Vec<String>) -> (r: Option<Target>)
    ensures
        r == forcing_attr(attrs@.map_values(|a: String| a@)),
{
    let ghost all = attrs@.map_values(|a: String| a@);
    let mut i: usize = 0;
    assert(all.subrange(0, all.len() as int) =~= all);
    while i < attrs.len()
        invariant
            all == attrs@.map_values(|a: String| a@),
            i <= attrs@.len(),
            forcing_attr(all) == forcing_attr(all.subrange(i as int, all.len() as int)),
        decreases attrs.len() - i,
    {
        let ghost rest = all.subrange(i as int, all.len() as int);
        assert(rest.drop_first() =~= all.subrange(i + 1, all.len() as int));
        if str_eq(attrs[i].as_str(), "wasm") {
            return Some(Target::Wasm);
        }
        if str_eq(attrs[i].as_str(), "js") {
            return Some(Target::Js);
        }
        i = i + 1;
    }
    None
}

/// Counts of the rubric's signals over the first blocks of a function.
struct Tally {
    console: u64,
    math: u64,
    dom: u64,
    mul_loop: u64,
    num_loop: u64,
}

fn bump(c: u64, yes: bool) -> (r: u64)
    requires
        c < u64::MAX,
    ensures
        r == c + if yes { 1int } else { 0 },
{
    if yes {
        c + 1
    } else {
        c
    }
}

proof fn lemma_count_in_bound(is: Seq<Instr>, s: Signal)
    ensures
        count_in(is, s) <= is.len(),
    decreases is.len(),
{
    if is.len() > 0 {
        lemma_count_in_bound(is.drop_last(), s);
    }
}

/// Counts the signals of one block's instructions.
fn tally_block(bb: &BasicBlock, in_loop: bool, t: Tally) -> (r: Tally)
    requires
        t.console + bb.instrs@.len() < u64::MAX,
        t.math + bb.instrs@.len() < u64::MAX,
        t.dom + bb.instrs@.len() < u64::MAX,
        t.mul_loop + bb.instrs@.len() < u64::MAX,
        t.num_loop + bb.instrs@.len() < u64::MAX,
    ensures
        r.console == t.console + count_in(bb.instrs@, Signal::Console),
        r.math == t.math + count_in(bb.instrs@, Signal::Math),
        r.dom == t.dom + count_in(bb.instrs@, Signal::Dom),
        r.mul_loop == t.mul_loop + if in_loop { count_in(bb.instrs@, Signal::Mul) } else { 0 },
        r.num_loop == t.num_loop + if in_loop { count_in(bb.instrs@, Signal::Numeric) } else { 0 },
{
    let mut r = t;
    let mut k: usize = 0;
    while k < bb.instrs.len()
        invariant
            k <= bb.instrs@.len(),
            t.console + bb.instrs@.len() < u64::MAX,
            t.math + bb.instrs@.len() < u64::MAX,
            t.dom + bb.instrs@.len() < u64::MAX,
            t.mul_loop + bb.instrs@.len() < u64::MAX,
            t.num_loop + bb.instrs@.len() < u64::MAX,
            r.console == t.console + count_in(bb.instrs@.subrange(0, k as int), Signal::Console),
            r.math == t.math + count_in(bb.instrs@.subrange(0, k as int), Signal::Math),
            r.dom == t.dom + count_in(bb.instrs@.subrange(0, k as int), Signal::Dom),
            r.mul_loop == t.mul_loop + if in_loop { count_in(bb.instrs@.subrange(0, k as int), Signal::Mul) } else { 0 },
            r.num_loop == t.num_loop + if in_loop { count_in(bb.instrs@.subrange(0, k as int), Signal::Numeric) } else { 0 },
        decreases bb.instrs.len() - k,
    {
        let ghost sub = bb.instrs@.subrange(0, k + 1);
        proof {
            assert(sub.drop_last() =~= bb.instrs@.subrange(0, k as int));
            lemma_count_in_bound(bb.instrs@.subrange(0, k as int), Signal::Console);
            lemma_count_in_bound(bb.instrs@.subrange(0, k as int), Signal::Math);
            lemma_count_in_bound(bb.instrs@.subrange(0, k as int), Signal::Dom);
            lemma_count_in_bound(bb.instrs@.subrange(0, k as int), Signal::Mul);
            lemma_count_in_bound(bb.instrs@.subrange(0, k as int), Signal::Numeric);
        }
        let instr = &bb.instrs[k];
        let (is_console, is_math, is_dom) = match called_name_exec(instr) {
            Some(name) => (str_eq(name.as_str(), "console.log"), is_math_call(name.as_str()), is_dom_call(name.as_str())),
            None => (false, false, false),
        };
        let (is_mul, is_num) = match instr {
            Instr::BinOp { op, .. } => match op {
                BinOp::Mul => (true, true),
                BinOp::Add | BinOp::Sub | BinOp::Div | BinOp::Rem => (false, true),
                _ => (false, false),
            },
            _ => (false, false),
        };
        r = Tally {
            console: bump(r.console, is_console),
            math: bump(r.math, is_math),
            dom: bump(r.dom, is_dom),
            mul_loop: bump(r.mul_loop, in_loop && is_mul),
            num_loop: bump(r.num_loop, in_loop && is_num),
        };
        k = k + 1;
    }
    assert(bb.instrs@.subrange(0, k as int) =~= bb.instrs@);
    r
}

/// Instructions in the first `n` blocks.
pub open spec fn instr_total(bs: Seq<BasicBlock>, n: int) -> nat
    decreases n,
{
    if n <= 0 {
        0
    } else {
        instr_total(bs, n - 1) + bs[n - 1].instrs@.len()
    }
}

proof fn lemma_count_blocks_bound(bs: Seq<BasicBlock>, n: int, s: Signal, loops: bool)
    requires
        n <= bs.len(),
    ensures
        count_blocks(bs, n, s, loops) <= instr_total(bs, n),
    decreases n,
{
    if n > 0 {
        lemma_count_blocks_bound(bs, n - 1, s, loops);
        lemma_count_in_bound(bs[n - 1].instrs@, s);
    }
}

proof fn lemma_total_mono(bs: Seq<BasicBlock>, m: int, n: int)
    requires
        m <= n,
    ensures
        instr_total(bs, m) <= instr_total(bs, n),
    decreases n - m,
{
    if m < n {
        lemma_total_mono(bs, m, n - 1);
    }
}

/// Counts the rubric's signals over all blocks of `f`.
fn tally_fn(f: &IrFn) -> (t: Tally)
    requires
        instr_total(f.blocks@, f.blocks@.len() as int) < u64::MAX,
    ensures
        t.console == count_fn(*f, Signal::Console, false),
        t.math == count_fn(*f, Signal::Math, false),
        t.dom == count_fn(*f, Signal::Dom, false),
        t.mul_loop == count_fn(*f, Signal::Mul, true),
        t.num_loop == count_fn(*f, Signal::Numeric, true),
{
    let ghost bs = f.blocks@;
    let ghost total = instr_total(bs, bs.len() as int);
    let mut t = Tally { console: 0, math: 0, dom: 0, mul_loop: 0, num_loop: 0 };
    let mut b: usize = 0;
    while b < f.blocks.len()
        invariant
            bs == f.blocks@,
            total == instr_total(bs, bs.len() as int),
            total < u64::MAX,
            b <= bs.len(),
            t.console == count_blocks(bs, b as int, Signal::Console, false),
            t.math == count_blocks(bs, b as int, Signal::Math, false),
            t.dom == count_blocks(bs, b as int, Signal::Dom, false),
            t.mul_loop == count_blocks(bs, b as int, Signal::Mul, true),
            t.num_loop == count_blocks(bs, b as int, Signal::Numeric, true),
        decreases f.blocks.len() - b,
    {
        proof {
            lemma_count_blocks_bound(bs, b as int, Signal::Console, false);
            lemma_count_blocks_bound(bs, b as int, Signal::Math, false);
            lemma_count_blocks_bound(bs, b as int, Signal::Dom, false);
            lemma_count_blocks_bound(bs, b as int, Signal::Mul, true);
            lemma_count_blocks_bound(bs, b as int, Signal::Numeric, true);
            lemma_total_mono(bs, b + 1, bs.len() as int);
        }
        let in_loop = is_loop_body(b, f);
        t = tally_block(&f.blocks[b], in_loop, t);
        b = b + 1;
    }
    t
}

/// The score and the reasons for the tallied signals.
#[verifier::rlimit(40)]
fn score_from(t: &Tally, asy: bool, ev: bool, arr: bool) -> (r: (i32, Vec<&'static str>))
    requires
        penalty_of(ev, t.console as int, t.dom > 0) >= i32::MIN,
    ensures
        r.0 == score_of(asy, ev, t.console as int, t.dom > 0, t.math as int, t.mul_loop > 0, t.num_loop as int, arr),
        r.1@.map_values(|x: &'static str| x@) == reasons_of(ev, t.dom > 0, t.math as int, t.mul_loop > 0, t.num_loop as int, arr),
{
    let mut score: i64 = if asy { 5 } else { 0 };
    let mut reasons: Vec<&'static str> = Vec::new();
    if ev {
        score = score - 200;
        reasons.push("async event handler naming pattern");
    }
    assert(t.console <= 300_000_000);
    score = score - 10 * (t.console as i64);
    if t.dom > 0 {
        score = score - 1000;
        reasons.push("calls a DOM API");
    }
    if t.math >= 3 {
        score = score + 25;
        reasons.push("calls Math.* 3+ times");
    } else if t.math > 0 {
        score = score + (t.math as i64) * 6;
    }
    if t.mul_loop > 0 {
        score = score + 30;
        reasons.push("multiply inside loop body (FMA pattern)");
    }
    if t.num_loop >= 10 {
        score = score + 50;
        reasons.push(">= 10 numeric ops inside loop body");
    } else if t.num_loop > 0 {
        score = score + (t.num_loop as i64) * 4;
    }
    if arr {
        score = score + 40;
        reasons.push("returns a numeric array type");
    }
    assert(reasons@.map_values(|x: &'static str| x@) =~= reasons_of(ev, t.dom > 0, t.math as int, t.mul_loop > 0, t.num_loop as int, arr));
    (score as i32, reasons)
}

/// Scores one function.
fn score_fn(f: &IrFn) -> (r: FnTarget)
    requires
        instr_total(f.blocks@, f.blocks@.len() as int) < u64::MAX,
        penalties(*f) >= i32::MIN,
    ensures
        scored(*f, r@),
{
    // An explicit `#[wasm]` / `#[js]` attribute decides.
    match find_forcing(&f.attrs) {
        Some(Target::Wasm) => {
            return forced(f, Target::Wasm, "forced by #[wasm] attribute", 1000);
        },
        Some(_) => {
            return forced(f, Target::Js, "forced by #[js] attribute", -1000);
        },
        None => {},
    }
    let t = tally_fn(f);
    let ev = f.is_async && (starts_with(f.name.as_str(), "on") || starts_with(f.name.as_str(), "handle"));
    let arr = is_numeric_array_ty(&f.ret_ty);
    let (score, reasons) = score_from(&t, f.is_async, ev, arr);
    let target = if score >= WASM_THRESHOLD { Target::Wasm } else { Target::Js };
    let reason = if reasons.len() == 0 {
        if score >= WASM_THRESHOLD {
            string_of("score above WASM threshold")
        } else {
            string_of("default: JS (score below WASM threshold)")
        }
    } else {
        join_reasons(&reasons)
    };
    FnTarget { name: f.name.clone(), target, forced: false, reason, score, callees: collect_callees(f) }
}

fn join_reasons(parts: &Vec<&'static str>) -> (s: String)
    ensures
        s@ == join(parts@.map_values(|r: &'static str| r@), "; "@),
{
    let ghost all = parts@.map_values(|r: &'static str| r@);
    let mut out = String::new();
    let mut i: usize = 0;
    while i < parts.len()
        invariant
            all == parts@.map_values(|r: &'static str| r@),
            i <= parts@.len(),
            out@ == join(all.subrange(0, i as int), "; "@),
        decreases parts.len() - i,
    {
        let ghost before = out@;
        if i > 0 {
            push_str(&mut out, "; ");
        }
        push_str(&mut out, parts[i]);
        proof {
            let sub = all.subrange(0, i + 1);
            assert(sub.drop_last() =~= all.subrange(0, i as int));
            if i == 0 {
                assert(out@ =~= sub[0]);
            }
        }
        i = i + 1;
    }
    assert(all.subrange(0, i as int) =~= all);
    out
}

/// The entries after inserting `recs` in order into `es`.
pub open spec fn insert_all(es: Seq<(Seq<char>, FnTargetV)>, recs: Seq<FnTargetV>) -> Seq<(Seq<char>, FnTargetV)>
    decreases recs.len(),
{
    if recs.len() == 0 {
        es
    } else {
        entry_insert(insert_all(es, recs.drop_last()), recs.last().name, recs.last())
    }
}

/// What scoring can take: counts that fit a `u64` and penalties that fit
/// the `i32` score.
pub open spec fn scorable(f: IrFn) -> bool {
    &&& instr_total(f.blocks@, f.blocks@.len() as int) < u64::MAX
    &&& penalties(f) >= i32::MIN
}

/// `f` as it was, with its target set to `t`.
pub open spec fn retargeted(f: IrFn, t: Target) -> IrFn {
    IrFn { target: t, ..f }
}

/// Infers a target for every function of `module`: sets each `IrFn.target`
/// and returns the map with the scoring details, in function order.
pub fn infer_targets(module: &mut IrModule) -> (map: TargetMap)
    requires
        forall|i: int| 0 <= i < old(module).fns@.len() ==> scorable(#[trigger] old(module).fns@[i]),
    ensures
        map.wf(),
        final(module).name == old(module).name,
        final(module).globals == old(module).globals,
        final(module).fns@.len() == old(module).fns@.len(),
        exists|recs: Seq<FnTargetV>|
            {
                &&& recs.len() == old(module).fns@.len()
                &&& forall|i: int|
                    0 <= i < recs.len() ==> scored(old(module).fns@[i], #[trigger] recs[i])
                        && final(module).fns@[i] == retargeted(old(module).fns@[i], recs[i].target)
                &&& map.entries() == insert_all(Seq::empty(), recs)
            },
{
    let mut map = TargetMap::new();
    let mut fns: Vec<IrFn> = Vec::new();
    std::mem::swap(&mut fns, &mut module.fns);
    let ghost orig = fns@;
    let mut rev: Vec<IrFn> = Vec::new();
    while fns.len() > 0
        invariant
            orig == fns@ + rev@.reverse(),
        decreases fns.len(),
    {
        let f = fns.pop().unwrap();
        rev.push(f);
        assert(orig =~= fns@ + rev@.reverse());
    }
    assert(orig =~= rev@.reverse());
    let mut out: Vec<IrFn> = Vec::new();
    assert(orig.subrange(0, orig.len() as int) =~= orig);
    let ghost mut recs: Seq<FnTargetV> = Seq::empty();
    while rev.len() > 0
        invariant
            map.wf(),
            out@.len() <= orig.len(),
            rev@.reverse() == orig.subrange(out@.len() as int, orig.len() as int),
            recs.len() == out@.len(),
            forall|i: int| 0 <= i < orig.len() ==> scorable(#[trigger] orig[i]),
            forall|i: int|
                0 <= i < recs.len() ==> scored(orig[i], #[trigger] recs[i]) && out@[i] == retargeted(orig[i], recs[i].target),
            map.entries() == insert_all(Seq::empty(), recs),
        decreases rev.len(),
    {
        let ghost old_rev = rev@;
        let mut f = rev.pop().unwrap();
        let ghost k = out@.len() as int;
        assert(old_rev.reverse() =~= seq![f] + rev@.reverse());
        assert(orig[k] == old_rev.reverse()[0]);
        assert((seq![f] + rev@.reverse()).drop_first() =~= rev@.reverse());
        assert(orig.subrange(k, orig.len() as int).drop_first() =~= orig.subrange(k + 1, orig.len() as int));
        assert(rev@.reverse() =~= orig.subrange(k + 1, orig.len() as int));
        let rec = score_fn(&f);
        let ghost rv = rec@;
        f.target = rec.target;
        map.insert(rec);
        let ghost before = recs;
        proof {
            recs = recs.push(rv);
            assert(recs.drop_last() =~= before);
        }
        out.push(f);
    }
    module.fns = out;
    map
}

/// Whether `f` can be scored: its counts fit and its penalties fit the
/// `i32` score.
pub fn fits_scoring(f: &IrFn) -> (b: bool)
    ensures
        b == scorable(*f),
{
    let ghost bs = f.blocks@;
    let mut total: u64 = 0;
    let mut i: usize = 0;
    while i < f.blocks.len()
        invariant
            bs == f.blocks@,
            i <= bs.len(),
            total == instr_total(bs, i as int),
            total < u64::MAX,
        decreases f.blocks.len() - i,
    {
        let n = f.blocks[i].instrs.len() as u64;
        if n >= u64::MAX - total {
            proof {
                lemma_total_mono(bs, i + 1, bs.len() as int);
            }
            return false;
        }
        total = total + n;
        i = i + 1;
    }
    let t = tally_fn(f);
    let ev = f.is_async && (starts_with(f.name.as_str(), "on") || starts_with(f.name.as_str(), "handle"));
    if t.console > 0x8000_0000u64 {
        return false;
    }
    let penalty: u64 = (if ev { 200u64 } else { 0u64 }) + 10 * t.console + (if t.dom > 0 { 1000u64 } else { 0u64 });
    assert(penalties(*f) == -(penalty as int));
    penalty <= 0x8000_0000u64
}

} // verus!
