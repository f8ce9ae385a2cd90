//! Bytecode optimisation passes, run by [`optimise`] on every function:
//!
//!   1. **Nop removal** — strips all `Nop` instructions.
//!   2. **Dead code elimination** — drops instructions that follow an
//!      unconditional `Jump`, `Return` or `ReturnVoid` in the flat stream.
//!   3. **Constant folding** — replaces `PUSH PUSH <binop>` triplets of
//!      constants with a single `PUSH` of the result.
//!
//! The passes work directly on the linear byte stream.  Floating-point
//! arithmetic on `f64` constants is done by the caller-supplied folding
//! function; the passes handle the constants only as bit patterns.

use vstd::prelude::*;
use vstd::wrapping::i32_specs;
use crate::bytecode::module::{BytecodeModule, BcFn, BcFnV};
use crate::bytecode::opcode::Op;
use crate::bytecode::encode::{le32, push_u32};

verus! {

// ── Instruction boundaries ───────────────────────────────────────────────────

/// The opcode a byte stands for; unknown bytes count as `Nop`.
pub open spec fn op_or_nop(b: u8) -> Op {
    match Op::from_byte(b) {
        Some(op) => op,
        None => Op::Nop,
    }
}

/// Length of the instruction whose opcode byte is `b`.
pub open spec fn instr_len(b: u8) -> int {
    1 + op_or_nop(b).imm_len() as int
}

/// The `len` bytes at `i`, or nothing when the stream ends first.
pub open spec fn chunk(code: Seq<u8>, i: int, len: int) -> Seq<u8> {
    if i + len <= code.len() {
        code.subrange(i, i + len)
    } else {
        seq![]
    }
}

fn copy_chunk(out: &mut Vec<u8>, code: &Vec<u8>, i: usize, len: usize)
    requires
        i <= code@.len(),
    ensures
        final(out)@ == old(out)@ + chunk(code@, i as int, len as int),
{
    if len <= code.len() - i {
        let mut k: usize = 0;
        while k < len
            invariant
                k <= len,
                i <= code.len(),
                len <= code.len() - i,
                out@ == old(out)@ + code@.subrange(i as int, i + k),
            decreases len - k,
        {
            out.push(code[i + k]);
            assert(code@.subrange(i as int, i + k + 1) =~= code@.subrange(i as int, i + k).push(
                code@[i + k],
            ));
            k = k + 1;
        }
    } else {
        assert(old(out)@ + chunk(code@, i as int, len as int) =~= old(out)@);
    }
}

// ── Pass 1: Nop removal ──────────────────────────────────────────────────────

/// The stream from `i` on without its `Nop` instructions; a truncated last
/// instruction is dropped.
pub open spec fn strip_nops(code: Seq<u8>, i: int) -> Seq<u8>
    decreases code.len() - i,
{
    if i < 0 || i >= code.len() {
        seq![]
    } else if code[i] == 0xFFu8 {
        strip_nops(code, i + 1)
    } else if i + instr_len(code[i]) > code.len() {
        seq![]
    } else {
        code.subrange(i, i + instr_len(code[i])) + strip_nops(code, i + instr_len(code[i]))
    }
}

fn remove_nops(code: &Vec<u8>) -> (out: Vec<u8>)
    ensures
        out@ == strip_nops(code@, 0),
{
    let mut out: Vec<u8> = Vec::new();
    let mut i: usize = 0;
    while i < code.len()
        invariant
            strip_nops(code@, 0) == out@ + strip_nops(code@, i as int),
        decreases code.len() - i,
    {
        if code[i] == Op::Nop.to_u8() {
            i = i + 1;
            continue;
        }
        let op = match Op::from_u8(code[i]) {
            Some(o) => o,
            None => Op::Nop,
        };
        let len = 1 + op.imm_bytes();
        if len > code.len() - i {
            assert(strip_nops(code@, i as int) =~= Seq::<u8>::empty());
            assert(out@ + strip_nops(code@, i as int) =~= out@ + strip_nops(code@, code.len() as int));
            i = code.len();
            continue;
        }
        let ghost before = out@;
        copy_chunk(&mut out, code, i, len);
        assert(before + (chunk(code@, i as int, len as int) + strip_nops(code@, i + len)) =~= out@
            + strip_nops(code@, i + len));
        i = i + len;
    }
    assert(out@ + strip_nops(code@, i as int) =~= out@);
    out
}

// ── Pass 2: Dead code elimination ────────────────────────────────────────────

/// Whether control never falls through past `op`.
pub open spec fn ends_flow(op: Op) -> bool {
    op is Return || op is ReturnVoid || op is Jump
}

/// Whether `op` transfers control to its offset.
pub open spec fn is_jump(op: Op) -> bool {
    op is Jump || op is JumpT || op is JumpF
}

/// Where the jump whose opcode is at `i` lands: its `i32` offset counted
/// from the next instruction.
pub open spec fn jump_target(code: Seq<u8>, i: int) -> int {
    i + 5 + (le_u32_at(code, i + 1) as i32) as int
}

/// The positions that the jumps of the stream from `i` on land on.
/// Unknown bytes are skipped one at a time.
pub open spec fn jump_targets(code: Seq<u8>, i: int) -> Set<int>
    decreases code.len() - i,
{
    if i < 0 || i >= code.len() {
        Set::empty()
    } else {
        match Op::from_byte(code[i]) {
            None => jump_targets(code, i + 1),
            Some(op) => if i + 1 + op.imm_len() > code.len() {
                Set::empty()
            } else {
                let rest = jump_targets(code, i + 1 + op.imm_len());
                if is_jump(op) {
                    rest.insert(jump_target(code, i))
                } else {
                    rest
                }
            },
        }
    }
}

/// The stream from `i` on without the instructions that cannot be reached:
/// those after an unconditional transfer (`alive` false) up to the next
/// position some jump lands on (one of `targets`).  Unknown bytes are
/// skipped one at a time.
pub open spec fn live_code(code: Seq<u8>, i: int, alive: bool, targets: Set<int>) -> Seq<u8>
    decreases code.len() - i,
{
    if i < 0 || i >= code.len() {
        seq![]
    } else {
        match Op::from_byte(code[i]) {
            None => live_code(code, i + 1, alive, targets),
            Some(op) => if i + 1 + op.imm_len() > code.len() {
                seq![]
            } else {
                let reached = alive || targets.contains(i);
                (if reached {
                    code.subrange(i, i + 1 + op.imm_len())
                } else {
                    seq![]
                }) + live_code(code, i + 1 + op.imm_len(), reached && !ends_flow(op), targets)
            },
        }
    }
}

/// The targets of the jumps in `code`.
fn collect_targets(code: &Vec<u8>) -> (ts: Vec<i128>)
    ensures
        forall|t: int| #![auto] jump_targets(code@, 0).contains(t) <==> exists|k: int| 0 <= k < ts@.len() && ts@[k] as int == t,
{
    let mut ts: Vec<i128> = Vec::new();
    let mut i: usize = 0;
    while i < code.len()
        invariant
            forall|t: int| #![auto] jump_targets(code@, 0).contains(t) <==> ((exists|k: int| 0 <= k < ts@.len() && ts@[k] as int == t)
                || jump_targets(code@, i as int).contains(t)),
        decreases code.len() - i,
    {
        let op = match Op::from_u8(code[i]) {
            Some(o) => o,
            None => {
                i = i + 1;
                continue;
            },
        };
        let len = 1 + op.imm_bytes();
        if len > code.len() - i {
            assert(jump_targets(code@, i as int) =~= Set::<int>::empty());
            assert(jump_targets(code@, code.len() as int) =~= Set::<int>::empty());
            i = code.len();
            continue;
        }
        let ghost before = ts@;
        match op {
            Op::Jump | Op::JumpT | Op::JumpF => {
                let off = read_u32_at(code, i + 1) as i32;
                ts.push(i as i128 + 5 + off as i128);
                proof {
                    assert(ts@[before.len() as int] as int == jump_target(code@, i as int));
                    assert forall|t: int| #![auto] jump_targets(code@, 0).contains(t) <==> ((exists|k: int| 0 <= k < ts@.len() && ts@[k] as int == t)
                        || jump_targets(code@, i + len).contains(t)) by {
                        if exists|k: int| 0 <= k < before.len() && before[k] as int == t {
                            let k = choose|k: int| 0 <= k < before.len() && before[k] as int == t;
                            assert(ts@[k] == before[k]);
                        }
                        if exists|k: int| 0 <= k < ts@.len() && ts@[k] as int == t {
                            let k = choose|k: int| 0 <= k < ts@.len() && ts@[k] as int == t;
                            if k < before.len() {
                                assert(ts@[k] == before[k]);
                            }
                        }
                    }
                }
            },
            _ => {},
        }
        i = i + len;
    }
    ts
}

/// Whether `i` is one of the targets `ts`.
fn is_target(ts: &Vec<i128>, i: usize) -> (b: bool)
    ensures
        b == exists|k: int| 0 <= k < ts@.len() && ts@[k] as int == i as int,
{
    let mut k: usize = 0;
    while k < ts.len()
        invariant
            k <= ts@.len(),
            forall|q: int| 0 <= q < k ==> ts@[q] as int != i as int,
        decreases ts.len() - k,
    {
        if ts[k] == i as i128 {
            return true;
        }
        k = k + 1;
    }
    false
}

fn dce(code: &Vec<u8>) -> (out: Vec<u8>)
    ensures
        out@ == live_code(code@, 0, true, jump_targets(code@, 0)),
{
    let ghost tset = jump_targets(code@, 0);
    let ts = collect_targets(code);
    let mut out: Vec<u8> = Vec::new();
    let mut alive = true;
    let mut i: usize = 0;
    while i < code.len()
        invariant
            tset == jump_targets(code@, 0),
            forall|t: int| #![auto] tset.contains(t) <==> exists|k: int| 0 <= k < ts@.len() && ts@[k] as int == t,
            live_code(code@, 0, true, tset) == out@ + live_code(code@, i as int, alive, tset),
        decreases code.len() - i,
    {
        let op = match Op::from_u8(code[i]) {
            Some(o) => o,
            None => {
                i = i + 1;
                continue;
            },
        };
        let len = 1 + op.imm_bytes();
        if len > code.len() - i {
            assert(live_code(code@, i as int, alive, tset) =~= Seq::<u8>::empty());
            assert(out@ + live_code(code@, i as int, alive, tset) =~= out@ + live_code(code@, code.len() as int, alive, tset));
            i = code.len();
            continue;
        }
        let ghost before = out@;
        if !alive && is_target(&ts, i) {
            alive = true;
        }
        let ghost reached = alive;
        if alive {
            copy_chunk(&mut out, code, i, len);
            match op {
                Op::Return | Op::ReturnVoid | Op::Jump => {
                    alive = false;
                },
                _ => {},
            }
        }
        assert(before + ((if reached {
            chunk(code@, i as int, len as int)
        } else {
            seq![]
        }) + live_code(code@, i + len, alive, tset)) =~= out@ + live_code(code@, i + len, alive, tset));
        i = i + len;
    }
    assert(out@ + live_code(code@, i as int, alive, tset) =~= out@);
    out
}

// ── Pass 3: Constant folding ─────────────────────────────────────────────────

/// Rust's `/` on integers: the quotient rounded toward zero.
pub open spec fn trunc_div(a: int, b: int) -> int {
    let q = (if a < 0 { -a } else { a }) / (if b < 0 { -b } else { b });
    if (a < 0) != (b < 0) {
        -q
    } else {
        q
    }
}

/// Wraps `i32::wrapping_div`: the quotient rounded toward zero, wrapped
/// into `i32` (only `MIN / -1` wraps).
#[verifier::external_body]
fn i32_wrapping_div(a: i32, b: i32) -> (r: i32)
    requires
        b != 0,
    ensures
        r == i32_specs::signed_crop(trunc_div(a as int, b as int)),
{
    a.wrapping_div(b)
}

/// Wraps `i32::wrapping_rem`: the remainder of the division rounded toward
/// zero (`MIN % -1` is 0).
#[verifier::external_body]
fn i32_wrapping_rem(a: i32, b: i32) -> (r: i32)
    requires
        b != 0,
    ensures
        r == i32_specs::signed_crop(a - b * trunc_div(a as int, b as int)),
{
    a.wrapping_rem(b)
}

pub open spec fn flag(b: bool) -> i32 {
    if b {
        1
    } else {
        0
    }
}

/// The folded value of `a op b` on `i32` constants, if `op` folds.
pub open spec fn fold_i32_spec(a: i32, b: i32, op: Option<Op>) -> Option<i32> {
    match op {
        Some(Op::Add) => Some(i32_specs::wrapping_add(a, b)),
        Some(Op::Sub) => Some(i32_specs::wrapping_sub(a, b)),
        Some(Op::Mul) => Some(i32_specs::wrapping_mul(a, b)),
        Some(Op::Div) => if b != 0 {
            Some(i32_specs::signed_crop(trunc_div(a as int, b as int)))
        } else {
            None
        },
        Some(Op::Rem) => if b != 0 {
            Some(i32_specs::signed_crop(a - b * trunc_div(a as int, b as int)))
        } else {
            None
        },
        Some(Op::Eq) => Some(flag(a == b)),
        Some(Op::Ne) => Some(flag(a != b)),
        Some(Op::Lt) => Some(flag(a < b)),
        Some(Op::Le) => Some(flag(a <= b)),
        Some(Op::Gt) => Some(flag(a > b)),
        Some(Op::Ge) => Some(flag(a >= b)),
        Some(Op::BitAnd) => Some(a & b),
        Some(Op::BitOr) => Some(a | b),
        Some(Op::BitXor) => Some(a ^ b),
        Some(Op::Shl) => Some(i32_specs::wrapping_shl(a, b as u32)),
        Some(Op::Shr) => Some(i32_specs::wrapping_shr(a, b as u32)),
        _ => None,
    }
}

/// Folding a comparison of two constants gives the truth of that
/// comparison as 1 or 0, and the six comparisons agree with each other:
/// `<=` is `<` or `==`, `>` is not `<=`, and swapping the operands turns
/// `<` into `>` and `<=` into `>=`.
pub proof fn lemma_folded_comparisons(a: i32, b: i32)
    ensures
        fold_i32_spec(a, b, Some(Op::Lt)) == Some(if a < b { 1i32 } else { 0i32 }),
        fold_i32_spec(a, b, Some(Op::Le)) == Some(if a <= b { 1i32 } else { 0i32 }),
        fold_i32_spec(a, b, Some(Op::Gt)) == Some(if a > b { 1i32 } else { 0i32 }),
        fold_i32_spec(a, b, Some(Op::Ge)) == Some(if a >= b { 1i32 } else { 0i32 }),
        fold_i32_spec(a, b, Some(Op::Eq)) == Some(if a == b { 1i32 } else { 0i32 }),
        fold_i32_spec(a, b, Some(Op::Ne)) == Some(if a != b { 1i32 } else { 0i32 }),
        fold_i32_spec(a, b, Some(Op::Le))->0 == fold_i32_spec(a, b, Some(Op::Lt))->0 + fold_i32_spec(a, b, Some(Op::Eq))->0,
        fold_i32_spec(a, b, Some(Op::Gt))->0 == 1 - fold_i32_spec(a, b, Some(Op::Le))->0,
        fold_i32_spec(a, b, Some(Op::Ne))->0 == 1 - fold_i32_spec(a, b, Some(Op::Eq))->0,
        fold_i32_spec(a, b, Some(Op::Lt)) == fold_i32_spec(b, a, Some(Op::Gt)),
        fold_i32_spec(a, b, Some(Op::Le)) == fold_i32_spec(b, a, Some(Op::Ge)),
        fold_i32_spec(a, a, Some(Op::Le)) == Some(1i32) && fold_i32_spec(a, a, Some(Op::Lt)) == Some(0i32),
{
}

/// Folding arithmetic on two constants: within `i32` range the result is
/// the exact sum, difference or product; `+` and `*` commute; subtracting
/// `b` undoes adding it.
pub proof fn lemma_folded_arithmetic(a: i32, b: i32)
    ensures
        i32::MIN <= a + b <= i32::MAX ==> fold_i32_spec(a, b, Some(Op::Add)) == Some((a + b) as i32),
        i32::MIN <= a - b <= i32::MAX ==> fold_i32_spec(a, b, Some(Op::Sub)) == Some((a - b) as i32),
        i32::MIN <= a * b <= i32::MAX ==> fold_i32_spec(a, b, Some(Op::Mul)) == Some((a * b) as i32),
        fold_i32_spec(a, b, Some(Op::Add)) == fold_i32_spec(b, a, Some(Op::Add)),
        fold_i32_spec(a, b, Some(Op::Mul)) == fold_i32_spec(b, a, Some(Op::Mul)),
        fold_i32_spec(fold_i32_spec(a, b, Some(Op::Add))->0, b, Some(Op::Sub)) == Some(a),
{
    assert(a * b == b * a) by (nonlinear_arith);
    let m = a * b;
    if i32::MIN <= m <= i32::MAX {
        assert(m % 0x1_0000_0000 == (if m >= 0 { m } else { m + 0x1_0000_0000 }));
    }
}

proof fn lemma_trunc_div_bounds(a: int, b: int)
    requires
        b != 0,
        i32::MIN <= a <= i32::MAX,
        i32::MIN <= b <= i32::MAX,
        !(a == i32::MIN && b == -1),
    ensures
        i32::MIN <= trunc_div(a, b) <= i32::MAX,
        a - b * trunc_div(a, b) < (if b > 0 { b } else { -b }),
        -(if b > 0 { b } else { -b }) < a - b * trunc_div(a, b),
        a >= 0 ==> a - b * trunc_div(a, b) >= 0,
        a < 0 ==> a - b * trunc_div(a, b) <= 0,
{
    let ua = if a < 0 { -a } else { a };
    let ub = if b < 0 { -b } else { b };
    let q0 = ua / ub;
    let r0 = ua % ub;
    assert(ua == ub * q0 + r0 && 0 <= r0 < ub) by (nonlinear_arith)
        requires
            ub > 0,
            ua >= 0,
            q0 == ua / ub,
            r0 == ua % ub,
    ;
    assert(0 <= q0 <= ua) by (nonlinear_arith)
        requires
            ub >= 1,
            ua >= 0,
            ua == ub * q0 + r0,
            0 <= r0 < ub,
    ;
    if q0 == 0x8000_0000 {
        assert(ub == 1) by (nonlinear_arith)
            requires
                ub >= 1,
                ua <= 0x8000_0000,
                ua == ub * q0 + r0,
                0 <= r0,
                q0 == 0x8000_0000,
        ;
    }
    let q = trunc_div(a, b);
    if a >= 0 && b > 0 {
        assert(a - b * q == r0);
    } else if a < 0 && b > 0 {
        assert(b * q == -(ub * q0)) by (nonlinear_arith)
            requires
                q == -q0,
                b == ub,
        ;
    } else if a >= 0 && b < 0 {
        assert(b * q == ub * q0) by (nonlinear_arith)
            requires
                q == -q0,
                b == -ub,
        ;
    } else {
        assert(b * q == -(ub * q0)) by (nonlinear_arith)
            requires
                q == q0,
                b == -ub,
        ;
    }
}

/// Folding `/` and `%` on two constants, away from a zero divisor and the
/// one overflowing quotient: the quotient rounds toward zero, and
/// quotient times divisor plus remainder gives the dividend back, the
/// remainder smaller than the divisor and of the dividend's sign.
pub proof fn lemma_folded_division(a: i32, b: i32)
    requires
        b != 0,
        !(a == i32::MIN && b == -1),
    ensures
        fold_i32_spec(a, b, Some(Op::Div)) is Some && fold_i32_spec(a, b, Some(Op::Rem)) is Some,
        b * fold_i32_spec(a, b, Some(Op::Div))->0 + fold_i32_spec(a, b, Some(Op::Rem))->0 == a,
        a >= 0 ==> 0 <= fold_i32_spec(a, b, Some(Op::Rem))->0,
        a < 0 ==> fold_i32_spec(a, b, Some(Op::Rem))->0 <= 0,
        fold_i32_spec(a, b, Some(Op::Rem))->0 < (if b > 0 { b as int } else { -b }),
        -(if b > 0 { b as int } else { -b }) < fold_i32_spec(a, b, Some(Op::Rem))->0,
{
    let q = trunc_div(a as int, b as int);
    let r = a - b * q;
    lemma_trunc_div_bounds(a as int, b as int);
    assert(i32::MIN <= q <= i32::MAX);
    assert(i32::MIN <= r <= i32::MAX);
    assert(q % 0x1_0000_0000 == (if q >= 0 { q } else { q + 0x1_0000_0000 }));
    assert(r % 0x1_0000_0000 == (if r >= 0 { r } else { r + 0x1_0000_0000 }));
}

fn fold_i32(a: i32, b: i32, op: Option<Op>) -> (r: Option<i32>)
    ensures
        r == fold_i32_spec(a, b, op),
{
    match op {
        Some(Op::Add) => Some(a.wrapping_add(b)),
        Some(Op::Sub) => Some(a.wrapping_sub(b)),
        Some(Op::Mul) => Some(a.wrapping_mul(b)),
        Some(Op::Div) => if b != 0 {
            Some(i32_wrapping_div(a, b))
        } else {
            None
        },
        Some(Op::Rem) => if b != 0 {
            Some(i32_wrapping_rem(a, b))
        } else {
            None
        },
        Some(Op::Eq) => Some(if a == b { 1 } else { 0 }),
        Some(Op::Ne) => Some(if a != b { 1 } else { 0 }),
        Some(Op::Lt) => Some(if a < b { 1 } else { 0 }),
        Some(Op::Le) => Some(if a <= b { 1 } else { 0 }),
        Some(Op::Gt) => Some(if a > b { 1 } else { 0 }),
        Some(Op::Ge) => Some(if a >= b { 1 } else { 0 }),
        Some(Op::BitAnd) => Some(a & b),
        Some(Op::BitOr) => Some(a | b),
        Some(Op::BitXor) => Some(a ^ b),
        Some(Op::Shl) => Some(a.wrapping_shl(#[verifier::truncate] (b as u32))),
        Some(Op::Shr) => Some(a.wrapping_shr(#[verifier::truncate] (b as u32))),
        _ => None,
    }
}

/// The little-endian `u32` at `i`.
pub open spec fn le_u32_at(code: Seq<u8>, i: int) -> u32 {
    (code[i] + 256 * code[i + 1] + 65536 * code[i + 2] + 16777216 * code[i + 3]) as u32
}

/// The little-endian `u64` at `i`.
pub open spec fn le_u64_at(code: Seq<u8>, i: int) -> u64 {
    (le_u32_at(code, i) + 0x1_0000_0000 * le_u32_at(code, i + 4)) as u64
}

/// `v` as eight little-endian bytes.
pub open spec fn le64(v: u64) -> Seq<u8> {
    le32((v % 0x1_0000_0000) as u32) + le32((v / 0x1_0000_0000) as u32)
}

/// The `f64` folding function `f` as a mathematical function.
pub open spec fn f64_folding<F: Fn(u64, u64, Option<Op>) -> Option<u64>>(f: F) -> spec_fn(
    u64,
    u64,
    Option<Op>,
) -> Option<u64> {
    |a: u64, b: u64, op: Option<Op>| choose|r: Option<u64>| f.ensures((a, b, op), r)
}

/// `f` may be called on any operands and gives one result for each.
pub open spec fn folding_ok<F: Fn(u64, u64, Option<Op>) -> Option<u64>>(f: F) -> bool {
    &&& forall|a: u64, b: u64, op: Option<Op>| f.requires((a, b, op))
    &&& forall|a: u64, b: u64, op: Option<Op>, r1: Option<u64>, r2: Option<u64>|
        f.ensures((a, b, op), r1) && f.ensures((a, b, op), r2) ==> r1 == r2
}

/// What folding emits for the instruction at `i`, and where the next one
/// starts: `PushI32 a PushI32 b op` folds by [`fold_i32_spec`] and
/// `PushF64 a PushF64 b op` by `ff` on the bit patterns; anything else is
/// copied as it is.
pub open spec fn fold_step(code: Seq<u8>, i: int, ff: spec_fn(u64, u64, Option<Op>) -> Option<u64>) -> (Seq<u8>, int) {
    let op = op_or_nop(code[i]);
    let i32_fold = if op == Op::PushI32 && i + 11 <= code.len() && Op::from_byte(code[i + 5])
        == Some(Op::PushI32) {
        fold_i32_spec(
            le_u32_at(code, i + 1) as i32,
            le_u32_at(code, i + 6) as i32,
            Op::from_byte(code[i + 10]),
        )
    } else {
        None
    };
    let f64_fold = if op == Op::PushF64 && i + 19 <= code.len() && Op::from_byte(code[i + 9])
        == Some(Op::PushF64) {
        ff(le_u64_at(code, i + 1), le_u64_at(code, i + 10), Op::from_byte(code[i + 18]))
    } else {
        None
    };
    if let Some(r) = i32_fold {
        (seq![0x01u8] + le32(r as u32), i + 11)
    } else if let Some(r) = f64_fold {
        (seq![0x03u8] + le64(r), i + 19)
    } else {
        (chunk(code, i, 1 + op.imm_len() as int), i + 1 + op.imm_len())
    }
}

/// The stream from `i` on with constant triplets folded, one
/// [`fold_step`] after another.
pub open spec fn folded(code: Seq<u8>, i: int, ff: spec_fn(u64, u64, Option<Op>) -> Option<u64>) -> Seq<u8>
    decreases code.len() - i,
{
    if i < 0 || i >= code.len() {
        seq![]
    } else if fold_step(code, i, ff).1 > code.len() || fold_step(code, i, ff).1 <= i {
        fold_step(code, i, ff).0
    } else {
        fold_step(code, i, ff).0 + folded(code, fold_step(code, i, ff).1, ff)
    }
}

fn read_u32_at(code: &Vec<u8>, i: usize) -> (v: u32)
    requires
        i + 4 <= code.len(),
    ensures
        v == le_u32_at(code@, i as int),
{
    code[i] as u32 + 256 * (code[i + 1] as u32) + 65536 * (code[i + 2] as u32) + 16777216 * (
    code[i + 3] as u32)
}

fn read_u64_at(code: &Vec<u8>, i: usize) -> (v: u64)
    requires
        i + 8 <= code.len(),
    ensures
        v == le_u64_at(code@, i as int),
{
    let lo = read_u32_at(code, i) as u64;
    let hi = read_u32_at(code, i + 4) as u64;
    lo + 0x1_0000_0000 * hi
}

fn push_u64(buf: &mut Vec<u8>, v: u64)
    ensures
        final(buf)@ == old(buf)@ + le64(v),
{
    push_u32(buf, (v % 0x1_0000_0000) as u32);
    push_u32(buf, (v / 0x1_0000_0000) as u32);
    assert(final(buf)@ =~= old(buf)@ + le64(v));
}

fn fold_at<F: Fn(u64, u64, Option<Op>) -> Option<u64>>(
    out: &mut Vec<u8>,
    code: &Vec<u8>,
    i: usize,
    fold_f64: &F,
) -> (j: usize)
    requires
        i < code.len(),
        folding_ok(*fold_f64),
    ensures
        final(out)@ == old(out)@ + fold_step(code@, i as int, f64_folding(*fold_f64)).0,
        j == if fold_step(code@, i as int, f64_folding(*fold_f64)).1 > code.len() {
            code.len() as int
        } else {
            fold_step(code@, i as int, f64_folding(*fold_f64)).1
        },
{
    let ghost ff = f64_folding(*fold_f64);
    let op = match Op::from_u8(code[i]) {
        Some(o) => o,
        None => Op::Nop,
    };
    let mut i32_fold: Option<i32> = None;
    if op == Op::PushI32 && code.len() - i >= 11 {
        if Op::from_u8(code[i + 5]) == Some(Op::PushI32) {
            let a = #[verifier::truncate] (read_u32_at(code, i + 1) as i32);
            let b = #[verifier::truncate] (read_u32_at(code, i + 6) as i32);
            i32_fold = fold_i32(a, b, Op::from_u8(code[i + 10]));
        }
    }
    if let Some(r) = i32_fold {
        out.push(Op::PushI32.to_u8());
        push_u32(out, #[verifier::truncate] (r as u32));
        assert(final(out)@ =~= old(out)@ + (seq![0x01u8] + le32(#[verifier::truncate] (r as u32))));
        return i + 11;
    }
    let mut f64_fold: Option<u64> = None;
    if op == Op::PushF64 && code.len() - i >= 19 {
        if Op::from_u8(code[i + 9]) == Some(Op::PushF64) {
            let a = read_u64_at(code, i + 1);
            let b = read_u64_at(code, i + 10);
            let bop = Op::from_u8(code[i + 18]);
            let r = fold_f64(a, b, bop);
            proof {
                let r2 = ff(a, b, bop);
                assert(fold_f64.ensures((a, b, bop), r2));
            }
            f64_fold = r;
        }
    }
    if let Some(r) = f64_fold {
        out.push(Op::PushF64.to_u8());
        push_u64(out, r);
        assert(final(out)@ =~= old(out)@ + (seq![0x03u8] + le64(r)));
        return i + 19;
    }
    let len = 1 + op.imm_bytes();
    copy_chunk(out, code, i, len);
    if len > code.len() - i {
        code.len()
    } else {
        i + len
    }
}

fn constant_fold<F: Fn(u64, u64, Option<Op>) -> Option<u64>>(code: &Vec<u8>, fold_f64: &F) -> (out: Vec<u8>)
    requires
        folding_ok(*fold_f64),
    ensures
        out@ == folded(code@, 0, f64_folding(*fold_f64)),
{
    let ghost ff = f64_folding(*fold_f64);
    let mut out: Vec<u8> = Vec::new();
    let mut i: usize = 0;
    while i < code.len()
        invariant
            ff == f64_folding(*fold_f64),
            folding_ok(*fold_f64),
            folded(code@, 0, ff) == out@ + folded(code@, i as int, ff),
        decreases code.len() - i,
    {
        let ghost before = out@;
        let j = fold_at(&mut out, code, i, fold_f64);
        assert(before + (fold_step(code@, i as int, ff).0 + folded(code@, j as int, ff)) =~= out@
            + folded(code@, j as int, ff));
        i = j;
    }
    assert(out@ + folded(code@, i as int, ff) =~= out@);
    out
}

/// The code of a function after all three passes.
pub open spec fn optimised_code(code: Seq<u8>, ff: spec_fn(u64, u64, Option<Op>) -> Option<u64>) -> Seq<u8> {
    folded(live_code(strip_nops(code, 0), 0, true, jump_targets(strip_nops(code, 0), 0)), 0, ff)
}

/// Runs all passes over every function of `module`, in place.  `fold_f64`
/// computes `a op b` on two `f64` constants given by their bit patterns,
/// or `None` where the operation does not fold.
pub fn optimise<F: Fn(u64, u64, Option<Op>) -> Option<u64>>(module: &mut BytecodeModule, fold_f64: &F)
    requires
        folding_ok(*fold_f64),
    ensures
        final(module).const_pool == old(module).const_pool,
        final(module).source == old(module).source,
        final(module).src_hash == old(module).src_hash,
        final(module).fns@.len() == old(module).fns@.len(),
        forall|i: int|
            0 <= i < old(module).fns@.len() ==> {
                let (f, g) = (#[trigger] final(module).fns@[i]@, old(module).fns@[i]@);
                &&& f.code == optimised_code(g.code, f64_folding(*fold_f64))
                &&& f.name_idx == g.name_idx
                &&& f.param_count == g.param_count
                &&& f.local_count == g.local_count
                &&& f.is_export == g.is_export
                &&& f.is_async == g.is_async
            },
{
    let mut fns: Vec<BcFn> = Vec::new();
    std::mem::swap(&mut fns, &mut module.fns);
    let ghost orig = fns@;
    let mut out: Vec<BcFn> = Vec::new();
    let mut i: usize = 0;
    while i < fns.len()
        invariant
            fns@ == orig,
            folding_ok(*fold_f64),
            i <= orig.len(),
            out@.len() == i,
            forall|k: int|
                0 <= k < i ==> {
                    let (f, g) = (#[trigger] out@[k]@, orig[k]@);
                    &&& f.code == optimised_code(g.code, f64_folding(*fold_f64))
                    &&& f.name_idx == g.name_idx
                    &&& f.param_count == g.param_count
                    &&& f.local_count == g.local_count
                    &&& f.is_export == g.is_export
                    &&& f.is_async == g.is_async
                },
        decreases orig.len() - i,
    {
        let f = &fns[i];
        let c1 = remove_nops(&f.code);
        let c2 = dce(&c1);
        let c3 = constant_fold(&c2, fold_f64);
        out.push(
            BcFn {
                name_idx: f.name_idx,
                param_count: f.param_count,
                local_count: f.local_count,
                code: c3,
                is_export: f.is_export,
                is_async: f.is_async,
            },
        );
        i = i + 1;
    }
    module.fns = out;
}

} // verus!
