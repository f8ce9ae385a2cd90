//! IR → bytecode emitter.
//!
//! Each `IrFn` is translated block by block into a linear instruction
//! stream.  Jumps are emitted with a placeholder offset and recorded; once
//! every block's position is known, the placeholders are back-patched with
//! offsets relative to the end of their 4-byte immediate.

use vstd::prelude::*;
use vstd::wrapping::u32_specs;
use crate::bytecode::module::{BytecodeModule, BcFn, BcFnV, ConstPool, ConstValueV, intern_spec};
use crate::bytecode::encode::{le16, le32, push_u16, push_u32};
use crate::bytecode::opt::{le64, fold_i32_spec, lemma_folded_comparisons, lemma_folded_arithmetic};
use crate::ir::lower::binop_spec;
use crate::ast::BinaryOp;
use crate::bytecode::opcode::Op;
use crate::ir::ir::{
    IrModule, IrFn, BasicBlock, BlockId, Instr, Terminator, Value, Constant, BinOp, UnOp, IrLocal,
};

verus! {

// ── Specification of the emitted bytes ──────────────────────────────────────

/// A float constant's bit pattern, from its literal text.
pub type FloatBits = spec_fn(Seq<char>) -> u64;

pub open spec fn loc(l: IrLocal) -> Seq<u8> {
    le16(l.0 as u16)
}

pub open spec fn load(l: IrLocal) -> Seq<u8> {
    seq![0x10u8] + loc(l)
}

pub open spec fn store(l: IrLocal) -> Seq<u8> {
    seq![0x11u8] + loc(l)
}

pub open spec fn const_code(pool: Seq<ConstValueV>, c: Constant, fb: FloatBits) -> (Seq<ConstValueV>, Seq<u8>) {
    match c {
        Constant::I32(v) => (pool, seq![0x01u8] + le32(v as u32)),
        Constant::I64(v) => (pool, seq![0x02u8] + le64(v as u64)),
        Constant::F64(t) => (pool, seq![0x03u8] + le64(fb(t@))),
        Constant::Bool(b) => (pool, seq![0x04u8, if b { 1u8 } else { 0u8 }]),
        Constant::Str(s) => {
            let (p, idx) = intern_spec(pool, ConstValueV::Str(s@));
            (p, seq![0x05u8] + le16(idx))
        },
        Constant::NoneVal => (pool, seq![0x06u8]),
        Constant::Unit => (pool, seq![0x07u8]),
    }
}

pub open spec fn value_code(pool: Seq<ConstValueV>, v: Value, fb: FloatBits) -> (Seq<ConstValueV>, Seq<u8>) {
    match v {
        Value::Local(l) => (pool, load(l)),
        Value::Const(c) => const_code(pool, c, fb),
        Value::Global(name) => {
            let (p, idx) = intern_spec(pool, ConstValueV::Str(name@));
            (p, seq![0x12u8] + le16(idx))
        },
    }
}

/// The values pushed left to right.
pub open spec fn values_code(pool: Seq<ConstValueV>, vs: Seq<Value>, fb: FloatBits) -> (Seq<ConstValueV>, Seq<u8>)
    decreases vs.len(),
{
    if vs.len() == 0 {
        (pool, seq![])
    } else {
        let (p1, b1) = values_code(pool, vs.drop_last(), fb);
        let (p2, b2) = value_code(p1, vs.last(), fb);
        (p2, b1 + b2)
    }
}

pub open spec fn loads(ls: Seq<IrLocal>) -> Seq<u8>
    decreases ls.len(),
{
    if ls.len() == 0 {
        seq![]
    } else {
        loads(ls.drop_last()) + load(ls.last())
    }
}

pub open spec fn binop_byte(op: BinOp) -> u8 {
    match op {
        BinOp::Add => 0x30,
        BinOp::Sub => 0x31,
        BinOp::Mul => 0x32,
        BinOp::Div => 0x33,
        BinOp::Rem => 0x34,
        BinOp::Eq => 0x40,
        BinOp::Ne => 0x41,
        BinOp::Lt => 0x42,
        BinOp::Le => 0x43,
        BinOp::Gt => 0x44,
        BinOp::Ge => 0x45,
        BinOp::And => 0x48,
        BinOp::Or => 0x49,
        BinOp::BitAnd => 0x38,
        BinOp::BitOr => 0x39,
        BinOp::BitXor => 0x3A,
        BinOp::Shl => 0x3B,
        BinOp::Shr => 0x3C,
    }
}

/// A source operator, lowered to the IR and emitted as a bytecode opcode,
/// folds on two constants to what the source operator means: a comparison
/// to its truth as 1 or 0, `+` `-` `*` to the exact result within range,
/// the bitwise operators to the bitwise result.
pub proof fn lemma_compiled_operator_keeps_meaning(op: BinaryOp, a: i32, b: i32)
    ensures
        ({
            let f = fold_i32_spec(a, b, Op::from_byte(binop_byte(binop_spec(op))));
            &&& op is Lt ==> f == Some(if a < b { 1i32 } else { 0i32 })
            &&& op is Le ==> f == Some(if a <= b { 1i32 } else { 0i32 })
            &&& op is Gt ==> f == Some(if a > b { 1i32 } else { 0i32 })
            &&& op is Ge ==> f == Some(if a >= b { 1i32 } else { 0i32 })
            &&& op is Eq ==> f == Some(if a == b { 1i32 } else { 0i32 })
            &&& op is Ne ==> f == Some(if a != b { 1i32 } else { 0i32 })
            &&& (op is Add && i32::MIN <= a + b <= i32::MAX) ==> f == Some((a + b) as i32)
            &&& (op is Sub && i32::MIN <= a - b <= i32::MAX) ==> f == Some((a - b) as i32)
            &&& (op is Mul && i32::MIN <= a * b <= i32::MAX) ==> f == Some((a * b) as i32)
            &&& op is BitAnd ==> f == Some(a & b)
            &&& op is BitOr ==> f == Some(a | b)
            &&& op is BitXor ==> f == Some(a ^ b)
        }),
{
    lemma_folded_comparisons(a, b);
    lemma_folded_arithmetic(a, b);
}

pub open spec fn unop_byte(op: UnOp) -> u8 {
    match op {
        UnOp::Neg => 0x35,
        UnOp::Not => 0x4A,
    }
}

/// What one instruction emits, and the pool after its interning.
pub open spec fn instr_code(pool: Seq<ConstValueV>, i: Instr, fb: FloatBits) -> (Seq<ConstValueV>, Seq<u8>) {
    match i {
        Instr::Assign { dst, src } => {
            let (p, b) = value_code(pool, src, fb);
            (p, b + store(dst))
        },
        Instr::BinOp { dst, op, lhs, rhs } => {
            let (p1, b1) = value_code(pool, lhs, fb);
            let (p2, b2) = value_code(p1, rhs, fb);
            (p2, b1 + b2 + seq![binop_byte(op)] + store(dst))
        },
        Instr::UnOp { dst, op, src } => {
            let (p, b) = value_code(pool, src, fb);
            (p, b + seq![unop_byte(op)] + store(dst))
        },
        Instr::Call { dst, func, args } => {
            let (p1, b1) = values_code(pool, args@, fb);
            let (p2, b2) = value_code(p1, func, fb);
            (
                p2,
                b1 + b2 + seq![0x60u8, args@.len() as u8] + match dst {
                    Some(d) => store(d),
                    None => seq![0x20u8],
                },
            )
        },
        Instr::NewStruct { dst, name, fields } => {
            let (p1, b1) = values_code(pool, fields@.map_values(|f: (String, Value)| f.1), fb);
            let (p2, idx) = intern_spec(p1, ConstValueV::Name(name@));
            (p2, b1 + seq![0x70u8] + le16(idx) + le16(fields@.len() as u16) + store(dst))
        },
        Instr::GetField { dst, base, field } => {
            let (p, idx) = intern_spec(pool, ConstValueV::Name(field@));
            (p, load(base) + seq![0x71u8] + le16(idx) + store(dst))
        },
        Instr::SetField { base, field, val } => {
            let (p1, b1) = value_code(pool, val, fb);
            let (p2, idx) = intern_spec(p1, ConstValueV::Name(field@));
            (p2, load(base) + b1 + seq![0x72u8] + le16(idx))
        },
        Instr::NewArray { dst, elems } => {
            let (p, b) = values_code(pool, elems@, fb);
            (p, b + seq![0x78u8] + le16(elems@.len() as u16) + store(dst))
        },
        Instr::ArrayGet { dst, array, idx } => {
            let (p, b) = value_code(pool, idx, fb);
            (p, load(array) + b + seq![0x79u8] + store(dst))
        },
        Instr::ArraySet { array, idx, val } => {
            let (p1, b1) = value_code(pool, idx, fb);
            let (p2, b2) = value_code(p1, val, fb);
            (p2, load(array) + b1 + b2 + seq![0x7Au8])
        },
        Instr::WrapSome { dst, val } => {
            let (p, b) = value_code(pool, val, fb);
            (p, b + seq![0x80u8] + store(dst))
        },
        Instr::WrapOk { dst, val } => {
            let (p, b) = value_code(pool, val, fb);
            (p, b + seq![0x81u8] + store(dst))
        },
        Instr::WrapErr { dst, val } => {
            let (p, b) = value_code(pool, val, fb);
            (p, b + seq![0x82u8] + store(dst))
        },
        Instr::IsNone { dst, val } => (pool, load(val) + seq![0x83u8] + store(dst)),
        Instr::IsErr { dst, val } => (pool, load(val) + seq![0x84u8] + store(dst)),
        Instr::Unwrap { dst, val } => (pool, load(val) + seq![0x85u8] + store(dst)),
        Instr::Closure { dst, fn_name, captures } => {
            let (p, idx) = intern_spec(pool, ConstValueV::Str(fn_name@));
            (
                p,
                loads(captures@) + seq![0x90u8] + le16(idx) + seq![captures@.len() as u8] + store(
                    dst,
                ),
            )
        },
        Instr::Nop => (pool, seq![0xFFu8]),
    }
}

/// The 4-byte placeholder written where a jump offset will go.
pub open spec fn placeholder() -> Seq<u8> {
    le32(0x0BAD_0000u32)
}

/// The emitter's state: pool, raw code, block start positions and the
/// jump immediates still to patch (position, target).
pub struct EmitState {
    pub pool: Seq<ConstValueV>,
    pub code: Seq<u8>,
    pub offsets: Seq<Option<usize>>,
    pub patches: Seq<(usize, BlockId)>,
}

pub open spec fn instrs_step(st: EmitState, is: Seq<Instr>, fb: FloatBits) -> EmitState
    decreases is.len(),
{
    if is.len() == 0 {
        st
    } else {
        let s1 = instrs_step(st, is.drop_last(), fb);
        let (p, b) = instr_code(s1.pool, is.last(), fb);
        EmitState { pool: p, code: s1.code + b, ..s1 }
    }
}

pub open spec fn term_step(st: EmitState, t: Terminator, fb: FloatBits) -> EmitState {
    match t {
        Terminator::Return(Some(v)) => {
            let (p, b) = value_code(st.pool, v, fb);
            EmitState { pool: p, code: st.code + b + seq![0x62u8], ..st }
        },
        Terminator::Return(None) => EmitState { code: st.code + seq![0x63u8], ..st },
        Terminator::Jump(target) => EmitState {
            code: st.code + seq![0x50u8] + placeholder(),
            patches: st.patches.push(((st.code.len() + 1) as usize, target)),
            ..st
        },
        Terminator::Branch { cond, then_bb, else_bb } => {
            let (p, b) = value_code(st.pool, cond, fb);
            let n = st.code.len() + b.len();
            EmitState {
                pool: p,
                code: st.code + b + seq![0x51u8] + placeholder() + seq![0x50u8] + placeholder(),
                patches: st.patches.push(((n + 1) as usize, then_bb)).push(((n + 6) as usize, else_bb)),
                ..st
            }
        },
        Terminator::Unreachable => EmitState { code: st.code + seq![0x63u8], ..st },
    }
}

/// `offs` grown with `None`s to at least `n` entries.
pub open spec fn grow(offs: Seq<Option<usize>>, n: int) -> Seq<Option<usize>> {
    if n <= offs.len() {
        offs
    } else {
        Seq::new(n as nat, |i: int| if i < offs.len() { offs[i] } else { None })
    }
}

/// Starting block `id` at the current position.
pub open spec fn begin_step(st: EmitState, id: BlockId) -> EmitState {
    EmitState {
        offsets: grow(st.offsets, id.0 + 1).update(id.0 as int, Some(st.code.len() as usize)),
        ..st
    }
}

pub open spec fn block_step(st: EmitState, bb: BasicBlock, fb: FloatBits) -> EmitState {
    term_step(instrs_step(begin_step(st, bb.id), bb.instrs@, fb), bb.term, fb)
}

pub open spec fn blocks_step(st: EmitState, bbs: Seq<BasicBlock>, fb: FloatBits) -> EmitState
    decreases bbs.len(),
{
    if bbs.len() == 0 {
        st
    } else {
        block_step(blocks_step(st, bbs.drop_last(), fb), bbs.last(), fb)
    }
}

/// Where block `t` starts (0 for a block never emitted).
pub open spec fn target_offset(offs: Seq<Option<usize>>, t: BlockId) -> usize {
    if (t.0 as int) < offs.len() {
        match offs[t.0 as int] {
            Some(o) => o,
            None => 0,
        }
    } else {
        0
    }
}

/// `code` with the four bytes at `pos` replaced by `v`.
pub open spec fn write32(code: Seq<u8>, pos: int, v: u32) -> Seq<u8> {
    code.subrange(0, pos) + le32(v) + code.subrange(pos + 4, code.len() as int)
}

/// Every patch overwritten with its jump offset, relative to the end of the
/// immediate and taken modulo 2^32.
pub open spec fn patch_all(code: Seq<u8>, ps: Seq<(usize, BlockId)>, offs: Seq<Option<usize>>) -> Seq<u8>
    decreases ps.len(),
{
    if ps.len() == 0 {
        code
    } else {
        let (pos, t) = ps.last();
        write32(
            patch_all(code, ps.drop_last(), offs),
            pos as int,
            u32_specs::wrapping_sub(target_offset(offs, t) as u32, (pos + 4) as u32),
        )
    }
}

/// The emitter state before the first block: 64 empty block slots.
pub open spec fn initial_state(pool: Seq<ConstValueV>) -> EmitState {
    EmitState {
        pool,
        code: seq![],
        offsets: Seq::new(64, |i: int| None::<usize>),
        patches: seq![],
    }
}

/// What emitting `f` gives against `pool`: the pool afterwards and the
/// function record.
pub open spec fn fn_emit(pool: Seq<ConstValueV>, f: IrFn, fb: FloatBits) -> (Seq<ConstValueV>, BcFnV) {
    let (p0, name_idx) = intern_spec(pool, ConstValueV::Str(f.name@));
    let st = blocks_step(initial_state(p0), f.blocks@, fb);
    (
        st.pool,
        BcFnV {
            name_idx,
            param_count: f.params@.len() as u8,
            local_count: f.num_locals as u16,
            code: patch_all(st.code, st.patches, st.offsets),
            is_export: f.is_export,
            is_async: f.is_async,
        },
    )
}

pub open spec fn fns_emit(pool: Seq<ConstValueV>, fs: Seq<IrFn>, fb: FloatBits) -> (Seq<ConstValueV>, Seq<BcFnV>)
    decreases fs.len(),
{
    if fs.len() == 0 {
        (pool, seq![])
    } else {
        let (p1, done) = fns_emit(pool, fs.drop_last(), fb);
        let (p2, f) = fn_emit(p1, fs.last(), fb);
        (p2, done.push(f))
    }
}

// ── The float-bits function ──────────────────────────────────────────────────

/// `f` gives `r` on some string whose text is `t`.
pub open spec fn gives<F: Fn(&str) -> u64>(f: F, t: Seq<char>, r: u64) -> bool {
    exists|s: &str| s@ == t && #[trigger] f.ensures((s,), r)
}

/// `f` as a mathematical function of the literal text.
pub open spec fn float_bits_of<F: Fn(&str) -> u64>(f: F) -> FloatBits {
    |t: Seq<char>| choose|r: u64| #[trigger] gives(f, t, r)
}

/// `f` may be called on any text and gives one result for each.
pub open spec fn float_bits_ok<F: Fn(&str) -> u64>(f: F) -> bool {
    &&& forall|s: &str| f.requires((s,))
    &&& forall|s1: &str, s2: &str, r1: u64, r2: u64|
        s1@ == s2@ && #[trigger] f.ensures((s1,), r1) && #[trigger] f.ensures((s2,), r2) ==> r1 == r2
}

// ── Per-function emitter ─────────────────────────────────────────────────────

struct FnEmitter {
    pool: ConstPool,
    code: Vec<u8>,
    /// Byte position of the start of each block, by block number.
    block_offsets: Vec<Option<usize>>,
    /// (position of a placeholder, target block) pairs to back-patch.
    patches: Vec<(usize, BlockId)>,
}

impl FnEmitter {
    spec fn state(&self) -> EmitState {
        EmitState {
            pool: self.pool@,
            code: self.code@,
            offsets: self.block_offsets@,
            patches: self.patches@,
        }
    }

    /// Every recorded placeholder lies inside the code.
    spec fn wf(&self) -> bool {
        forall|i: int| 0 <= i < self.patches@.len() ==> #[trigger] self.patches@[i].0 + 4 <= self.code@.len()
    }

    fn new(pool: ConstPool) -> (e: FnEmitter)
        ensures
            e.state() == initial_state(pool@),
            e.wf(),
    {
        let mut block_offsets: Vec<Option<usize>> = Vec::new();
        let mut i: usize = 0;
        while i < 64
            invariant
                i <= 64,
                block_offsets@ == Seq::new(i as nat, |k: int| None::<usize>),
            decreases 64 - i,
        {
            block_offsets.push(None);
            assert(block_offsets@ =~= Seq::new((i + 1) as nat, |k: int| None::<usize>));
            i = i + 1;
        }
        FnEmitter { pool, code: Vec::new(), block_offsets, patches: Vec::new() }
    }

    fn begin_block(&mut self, id: BlockId)
        requires
            old(self).wf(),
        ensures
            final(self).state() == begin_step(old(self).state(), id),
            final(self).wf(),
    {
        let idx = id.0 as usize;
        let ghost old_offs = self.block_offsets@;
        while self.block_offsets.len() <= idx
            invariant
                old(self).wf(),
                self.code == old(self).code,
                self.pool == old(self).pool,
                self.patches == old(self).patches,
                idx == id.0,
                self.block_offsets@.len() >= old_offs.len(),
                self.block_offsets@.len() <= if idx + 1 > old_offs.len() { idx + 1 } else { old_offs.len() as int },
                forall|k: int| 0 <= k < self.block_offsets@.len() ==> #[trigger] self.block_offsets@[k] == (if k < old_offs.len() { old_offs[k] } else { None }),
            decreases idx + 1 - self.block_offsets.len(),
        {
            self.block_offsets.push(None);
        }
        assert(self.block_offsets@ =~= grow(old_offs, id.0 + 1));
        let pos = self.code.len();
        self.block_offsets.set(idx, Some(pos));
    }

    fn emit_u8(&mut self, v: u8)
        requires
            old(self).wf(),
        ensures
            final(self).state() == (EmitState { code: old(self).code@.push(v), ..old(self).state() }),
            final(self).wf(),
    {
        self.code.push(v);
    }

    fn emit_op(&mut self, op: Op)
        requires
            old(self).wf(),
        ensures
            final(self).state() == (EmitState { code: old(self).code@.push(op.byte()), ..old(self).state() }),
            final(self).wf(),
    {
        let b = op.to_u8();
        self.code.push(b);
    }

    fn emit_u16(&mut self, v: u16)
        requires
            old(self).wf(),
        ensures
            final(self).state() == (EmitState { code: old(self).code@ + le16(v), ..old(self).state() }),
            final(self).wf(),
    {
        push_u16(&mut self.code, v);
    }

    fn emit_i32(&mut self, v: i32)
        requires
            old(self).wf(),
        ensures
            final(self).state() == (EmitState { code: old(self).code@ + le32(v as u32), ..old(self).state() }),
            final(self).wf(),
    {
        push_u32(&mut self.code, #[verifier::truncate] (v as u32));
    }

    fn emit_u64(&mut self, v: u64)
        requires
            old(self).wf(),
        ensures
            final(self).state() == (EmitState { code: old(self).code@ + le64(v), ..old(self).state() }),
            final(self).wf(),
    {
        push_u32(&mut self.code, (v % 0x1_0000_0000) as u32);
        push_u32(&mut self.code, (v / 0x1_0000_0000) as u32);
        assert(self.code@ =~= old(self).code@ + le64(v));
    }

    fn emit_local(&mut self, l: IrLocal)
        requires
            old(self).wf(),
        ensures
            final(self).state() == (EmitState { code: old(self).code@ + loc(l), ..old(self).state() }),
            final(self).wf(),
    {
        self.emit_u16(#[verifier::truncate] (l.0 as u16));
    }

    /// Emits a placeholder jump offset and records it for back-patching.
    fn emit_jump_placeholder(&mut self, target: BlockId)
        requires
            old(self).wf(),
        ensures
            final(self).state() == (EmitState {
                code: old(self).code@ + placeholder(),
                patches: old(self).patches@.push((old(self).code@.len() as usize, target)),
                ..old(self).state()
            }),
            final(self).wf(),
    {
        let patch_pos = self.code.len();
        push_u32(&mut self.code, 0x0BAD_0000u32);
        self.patches.push((patch_pos, target));
    }

    /// Back-patches every recorded placeholder.
    fn backpatch(&mut self)
        requires
            old(self).wf(),
        ensures
            final(self).code@ == patch_all(old(self).code@, old(self).patches@, old(self).block_offsets@),
            final(self).pool == old(self).pool,
    {
        let mut i: usize = 0;
        while i < self.patches.len()
            invariant
                self.patches == old(self).patches,
                self.block_offsets == old(self).block_offsets,
                self.pool == old(self).pool,
                self.code@.len() == old(self).code@.len(),
                old(self).wf(),
                i <= self.patches@.len(),
                self.code@ == patch_all(old(self).code@, self.patches@.subrange(0, i as int), self.block_offsets@),
            decreases self.patches.len() - i,
        {
            let (patch_pos, target) = self.patches[i];
            let tidx = target.0 as usize;
            let target_off: usize = if tidx < self.block_offsets.len() {
                match self.block_offsets[tidx] {
                    Some(o) => o,
                    None => 0,
                }
            } else {
                0
            };
            assert(patch_pos + 4 <= old(self).code@.len());
            assert(patch_pos + 4 <= self.code.len());
            let after_imm = patch_pos + 4;
            let rel = (#[verifier::truncate] (target_off as u32)).wrapping_sub(
                #[verifier::truncate] (after_imm as u32),
            );
            let ghost before = self.code@;
            self.code.set(patch_pos, (rel % 256) as u8);
            self.code.set(patch_pos + 1, ((rel / 256) % 256) as u8);
            self.code.set(patch_pos + 2, ((rel / 65536) % 256) as u8);
            self.code.set(patch_pos + 3, (rel / 16777216) as u8);
            proof {
                let ps = self.patches@.subrange(0, i + 1);
                assert(ps.drop_last() =~= self.patches@.subrange(0, i as int));
                assert(self.code@ =~= write32(before, patch_pos as int, rel));
            }
            i = i + 1;
        }
        assert(self.patches@.subrange(0, i as int) =~= self.patches@);
    }
}

// ── Values and instructions ──────────────────────────────────────────────────

fn emit_const<F: Fn(&str) -> u64>(e: &mut FnEmitter, c: &Constant, float_bits: &F)
    requires
        old(e).wf(),
        float_bits_ok(*float_bits),
    ensures
        final(e).wf(),
        ({
            let (p, b) = const_code(old(e).pool@, *c, float_bits_of(*float_bits));
            final(e).state() == (EmitState { pool: p, code: old(e).code@ + b, ..old(e).state() })
        }),
{
    let ghost s0 = e.code@;
    match c {
        Constant::I32(v) => {
            e.emit_op(Op::PushI32);
            e.emit_i32(*v);
        },
        Constant::I64(v) => {
            e.emit_op(Op::PushI64);
            e.emit_u64(#[verifier::truncate] (*v as u64));
        },
        Constant::F64(t) => {
            let ts = t.as_str();
            let bits = float_bits(ts);
            proof {
                assert(float_bits.ensures((ts,), bits));
                assert(gives(*float_bits, t@, bits));
                let r = choose|r: u64| gives(*float_bits, t@, r);
                let s2 = choose|s: &str| s@ == t@ && #[trigger] float_bits.ensures((s,), r);
                assert(r == bits);
            }
            e.emit_op(Op::PushF64);
            e.emit_u64(bits);
        },
        Constant::Bool(b) => {
            e.emit_op(Op::PushBool);
            e.emit_u8(if *b { 1 } else { 0 });
        },
        Constant::Str(s) => {
            let idx = e.pool.intern_str(s.as_str());
            e.emit_op(Op::PushStr);
            e.emit_u16(idx);
        },
        Constant::NoneVal => {
            e.emit_op(Op::PushNone);
        },
        Constant::Unit => {
            e.emit_op(Op::PushUnit);
        },
    }
    proof {
        let (p, b) = const_code(old(e).pool@, *c, float_bits_of(*float_bits));
        assert(e.code@ =~= old(e).code@ + b);
    }
}

fn emit_value<F: Fn(&str) -> u64>(e: &mut FnEmitter, v: &Value, float_bits: &F)
    requires
        old(e).wf(),
        float_bits_ok(*float_bits),
    ensures
        final(e).wf(),
        ({
            let (p, b) = value_code(old(e).pool@, *v, float_bits_of(*float_bits));
            final(e).state() == (EmitState { pool: p, code: old(e).code@ + b, ..old(e).state() })
        }),
{
    match v {
        Value::Local(l) => {
            e.emit_op(Op::LoadLocal);
            e.emit_local(*l);
            assert(e.code@ =~= old(e).code@ + load(*l));
        },
        Value::Const(c) => emit_const(e, c, float_bits),
        Value::Global(name) => {
            let idx = e.pool.intern_str(name.as_str());
            e.emit_op(Op::LoadGlobal);
            e.emit_u16(idx);
            assert(e.code@ =~= old(e).code@ + (seq![0x12u8] + le16(idx)));
        },
    }
}

fn emit_values<F: Fn(&str) -> u64>(e: &mut FnEmitter, vs: &Vec<Value>, float_bits: &F)
    requires
        old(e).wf(),
        float_bits_ok(*float_bits),
    ensures
        final(e).wf(),
        ({
            let (p, b) = values_code(old(e).pool@, vs@, float_bits_of(*float_bits));
            final(e).state() == (EmitState { pool: p, code: old(e).code@ + b, ..old(e).state() })
        }),
{
    let ghost fb = float_bits_of(*float_bits);
    let mut i: usize = 0;
    while i < vs.len()
        invariant
            e.wf(),
            float_bits_ok(*float_bits),
            fb == float_bits_of(*float_bits),
            i <= vs@.len(),
            ({
                let (p, b) = values_code(old(e).pool@, vs@.subrange(0, i as int), fb);
                e.state() == (EmitState { pool: p, code: old(e).code@ + b, ..old(e).state() })
            }),
        decreases vs.len() - i,
    {
        emit_value(e, &vs[i], float_bits);
        proof {
            let sub = vs@.subrange(0, i + 1);
            assert(sub.drop_last() =~= vs@.subrange(0, i as int));
            let (p1, b1) = values_code(old(e).pool@, vs@.subrange(0, i as int), fb);
            let (p2, b2) = value_code(p1, vs@[i as int], fb);
            assert(old(e).code@ + b1 + b2 =~= old(e).code@ + (b1 + b2));
        }
        i = i + 1;
    }
    assert(vs@.subrange(0, i as int) =~= vs@);
}

fn emit_field_values<F: Fn(&str) -> u64>(e: &mut FnEmitter, fields: &Vec<(String, Value)>, float_bits: &F)
    requires
        old(e).wf(),
        float_bits_ok(*float_bits),
    ensures
        final(e).wf(),
        ({
            let (p, b) = values_code(old(e).pool@, fields@.map_values(|f: (String, Value)| f.1), float_bits_of(*float_bits));
            final(e).state() == (EmitState { pool: p, code: old(e).code@ + b, ..old(e).state() })
        }),
{
    let ghost fb = float_bits_of(*float_bits);
    let ghost vals = fields@.map_values(|f: (String, Value)| f.1);
    let mut i: usize = 0;
    while i < fields.len()
        invariant
            e.wf(),
            float_bits_ok(*float_bits),
            fb == float_bits_of(*float_bits),
            vals == fields@.map_values(|f: (String, Value)| f.1),
            i <= fields@.len(),
            ({
                let (p, b) = values_code(old(e).pool@, vals.subrange(0, i as int), fb);
                e.state() == (EmitState { pool: p, code: old(e).code@ + b, ..old(e).state() })
            }),
        decreases fields.len() - i,
    {
        emit_value(e, &fields[i].1, float_bits);
        proof {
            let sub = vals.subrange(0, i + 1);
            assert(sub.drop_last() =~= vals.subrange(0, i as int));
            assert(sub.last() == fields@[i as int].1);
            let (p1, b1) = values_code(old(e).pool@, vals.subrange(0, i as int), fb);
            let (p2, b2) = value_code(p1, fields@[i as int].1, fb);
            assert(old(e).code@ + b1 + b2 =~= old(e).code@ + (b1 + b2));
        }
        i = i + 1;
    }
    assert(vals.subrange(0, i as int) =~= vals);
}

fn binop_to_op(op: BinOp) -> (r: Op)
    ensures
        r.byte() == binop_byte(op),
{
    match op {
        BinOp::Add => Op::Add,
        BinOp::Sub => Op::Sub,
        BinOp::Mul => Op::Mul,
        BinOp::Div => Op::Div,
        BinOp::Rem => Op::Rem,
        BinOp::Eq => Op::Eq,
        BinOp::Ne => Op::Ne,
        BinOp::Lt => Op::Lt,
        BinOp::Le => Op::Le,
        BinOp::Gt => Op::Gt,
        BinOp::Ge => Op::Ge,
        BinOp::And => Op::And,
        BinOp::Or => Op::Or,
        BinOp::BitAnd => Op::BitAnd,
        BinOp::BitOr => Op::BitOr,
        BinOp::BitXor => Op::BitXor,
        BinOp::Shl => Op::Shl,
        BinOp::Shr => Op::Shr,
    }
}

fn unop_to_op(op: UnOp) -> (r: Op)
    ensures
        r.byte() == unop_byte(op),
{
    match op {
        UnOp::Neg => Op::Neg,
        UnOp::Not => Op::Not,
    }
}

fn emit_store<F: Fn(&str) -> u64>(e: &mut FnEmitter, dst: IrLocal, float_bits: &F)
    requires
        old(e).wf(),
    ensures
        final(e).wf(),
        final(e).state() == (EmitState { code: old(e).code@ + store(dst), ..old(e).state() }),
{
    e.emit_op(Op::StoreLocal);
    e.emit_local(dst);
    assert(e.code@ =~= old(e).code@ + store(dst));
}

fn emit_load(e: &mut FnEmitter, l: IrLocal)
    requires
        old(e).wf(),
    ensures
        final(e).wf(),
        final(e).state() == (EmitState { code: old(e).code@ + load(l), ..old(e).state() }),
{
    e.emit_op(Op::LoadLocal);
    e.emit_local(l);
    assert(e.code@ =~= old(e).code@ + load(l));
}

fn emit_instr_a<F: Fn(&str) -> u64>(e: &mut FnEmitter, instr: &Instr, float_bits: &F)
    requires
        old(e).wf(),
        float_bits_ok(*float_bits),
        *instr is Assign || *instr is BinOp || *instr is UnOp,
    ensures
        final(e).wf(),
        ({
            let (p, b) = instr_code(old(e).pool@, *instr, float_bits_of(*float_bits));
            final(e).state() == (EmitState { pool: p, code: old(e).code@ + b, ..old(e).state() })
        }),
{
    let ghost c0 = e.code@;
    let ghost fb = float_bits_of(*float_bits);
    match instr {
        Instr::Assign { dst, src } => {
            emit_value(e, src, float_bits);
            emit_store(e, *dst, float_bits);
            proof {
                let (p, b) = value_code(old(e).pool@, *src, fb);
                assert(e.code@ =~= c0 + (b + store(*dst)));
            }
        },
        Instr::BinOp { dst, op, lhs, rhs } => {
            emit_value(e, lhs, float_bits);
            emit_value(e, rhs, float_bits);
            e.emit_op(binop_to_op(*op));
            emit_store(e, *dst, float_bits);
            proof {
                let (p1, b1) = value_code(old(e).pool@, *lhs, fb);
                let (p2, b2) = value_code(p1, *rhs, fb);
                assert(e.code@ =~= c0 + (b1 + b2 + seq![binop_byte(*op)] + store(*dst)));
            }
        },
        Instr::UnOp { dst, op, src } => {
            emit_value(e, src, float_bits);
            e.emit_op(unop_to_op(*op));
            emit_store(e, *dst, float_bits);
            proof {
                let (p, b) = value_code(old(e).pool@, *src, fb);
                assert(e.code@ =~= c0 + (b + seq![unop_byte(*op)] + store(*dst)));
            }
        },
        _ => {},
    }
}

fn emit_instr_w<F: Fn(&str) -> u64>(e: &mut FnEmitter, instr: &Instr, float_bits: &F)
    requires
        old(e).wf(),
        float_bits_ok(*float_bits),
        *instr is WrapSome || *instr is WrapOk || *instr is WrapErr,
    ensures
        final(e).wf(),
        ({
            let (p, b) = instr_code(old(e).pool@, *instr, float_bits_of(*float_bits));
            final(e).state() == (EmitState { pool: p, code: old(e).code@ + b, ..old(e).state() })
        }),
{
    let ghost c0 = e.code@;
    let ghost fb = float_bits_of(*float_bits);
    match instr {
        Instr::WrapSome { dst, val } => {
            emit_value(e, val, float_bits);
            e.emit_op(Op::WrapSome);
            emit_store(e, *dst, float_bits);
            proof {
                let (p, b) = value_code(old(e).pool@, *val, fb);
                assert(e.code@ =~= c0 + (b + seq![0x80u8] + store(*dst)));
            }
        },
        Instr::WrapOk { dst, val } => {
            emit_value(e, val, float_bits);
            e.emit_op(Op::WrapOk);
            emit_store(e, *dst, float_bits);
            proof {
                let (p, b) = value_code(old(e).pool@, *val, fb);
                assert(e.code@ =~= c0 + (b + seq![0x81u8] + store(*dst)));
            }
        },
        Instr::WrapErr { dst, val } => {
            emit_value(e, val, float_bits);
            e.emit_op(Op::WrapErr);
            emit_store(e, *dst, float_bits);
            proof {
                let (p, b) = value_code(old(e).pool@, *val, fb);
                assert(e.code@ =~= c0 + (b + seq![0x82u8] + store(*dst)));
            }
        },
        _ => {},
    }
}

fn emit_instr_b<F: Fn(&str) -> u64>(e: &mut FnEmitter, instr: &Instr, float_bits: &F)
    requires
        old(e).wf(),
        float_bits_ok(*float_bits),
        *instr is Call || *instr is NewStruct || *instr is NewArray || *instr is ArrayGet || *instr is ArraySet,
    ensures
        final(e).wf(),
        ({
            let (p, b) = instr_code(old(e).pool@, *instr, float_bits_of(*float_bits));
            final(e).state() == (EmitState { pool: p, code: old(e).code@ + b, ..old(e).state() })
        }),
{
    let ghost c0 = e.code@;
    let ghost fb = float_bits_of(*float_bits);
    match instr {
        Instr::Call { dst, func, args } => {
            emit_values(e, args, float_bits);
            emit_value(e, func, float_bits);
            e.emit_op(Op::Call);
            e.emit_u8(#[verifier::truncate] (args.len() as u8));
            let ghost c1 = e.code@;
            match dst {
                Some(d) => {
                    emit_store(e, *d, float_bits);
                },
                None => {
                    e.emit_op(Op::Pop);
                },
            }
            proof {
                let (p1, b1) = values_code(old(e).pool@, args@, fb);
                let (p2, b2) = value_code(p1, *func, fb);
                let tail = match *dst {
                    Some(d) => store(d),
                    None => seq![0x20u8],
                };
                assert(e.code@ =~= c0 + (b1 + b2 + seq![0x60u8, args@.len() as u8] + tail));
            }
        },
        Instr::NewStruct { dst, name, fields } => {
            emit_field_values(e, fields, float_bits);
            let name_idx = e.pool.intern_name(name.as_str());
            e.emit_op(Op::NewStruct);
            e.emit_u16(name_idx);
            e.emit_u16(#[verifier::truncate] (fields.len() as u16));
            emit_store(e, *dst, float_bits);
            proof {
                let (p1, b1) = values_code(old(e).pool@, fields@.map_values(|f: (String, Value)| f.1), fb);
                assert(e.code@ =~= c0 + (b1 + seq![0x70u8] + le16(name_idx) + le16(fields@.len() as u16) + store(*dst)));
            }
        },
        Instr::NewArray { dst, elems } => {
            emit_values(e, elems, float_bits);
            e.emit_op(Op::NewArray);
            e.emit_u16(#[verifier::truncate] (elems.len() as u16));
            emit_store(e, *dst, float_bits);
            proof {
                let (p, b) = values_code(old(e).pool@, elems@, fb);
                assert(e.code@ =~= c0 + (b + seq![0x78u8] + le16(elems@.len() as u16) + store(*dst)));
            }
        },
        Instr::ArrayGet { dst, array, idx } => {
            emit_load(e, *array);
            emit_value(e, idx, float_bits);
            e.emit_op(Op::ArrayGet);
            emit_store(e, *dst, float_bits);
            proof {
                let (p, b) = value_code(old(e).pool@, *idx, fb);
                assert(e.code@ =~= c0 + (load(*array) + b + seq![0x79u8] + store(*dst)));
            }
        },
        Instr::ArraySet { array, idx, val } => {
            emit_load(e, *array);
            emit_value(e, idx, float_bits);
            emit_value(e, val, float_bits);
            e.emit_op(Op::ArraySet);
            proof {
                let (p1, b1) = value_code(old(e).pool@, *idx, fb);
                let (p2, b2) = value_code(p1, *val, fb);
                assert(e.code@ =~= c0 + (load(*array) + b1 + b2 + seq![0x7Au8]));
            }
        },
        _ => {},
    }
}

fn emit_instr_c<F: Fn(&str) -> u64>(e: &mut FnEmitter, instr: &Instr, float_bits: &F)
    requires
        old(e).wf(),
        float_bits_ok(*float_bits),
        *instr is GetField || *instr is SetField || *instr is IsNone || *instr is IsErr || *instr is Unwrap || *instr is Closure || *instr is Nop,
    ensures
        final(e).wf(),
        ({
            let (p, b) = instr_code(old(e).pool@, *instr, float_bits_of(*float_bits));
            final(e).state() == (EmitState { pool: p, code: old(e).code@ + b, ..old(e).state() })
        }),
{
    let ghost c0 = e.code@;
    let ghost fb = float_bits_of(*float_bits);
    match instr {
        Instr::GetField { dst, base, field } => {
            emit_load(e, *base);
            let field_idx = e.pool.intern_name(field.as_str());
            e.emit_op(Op::GetField);
            e.emit_u16(field_idx);
            emit_store(e, *dst, float_bits);
            proof {
                assert(e.code@ =~= c0 + (load(*base) + seq![0x71u8] + le16(field_idx) + store(*dst)));
            }
        },
        Instr::SetField { base, field, val } => {
            emit_load(e, *base);
            emit_value(e, val, float_bits);
            let field_idx = e.pool.intern_name(field.as_str());
            e.emit_op(Op::SetField);
            e.emit_u16(field_idx);
            proof {
                let (p1, b1) = value_code(old(e).pool@, *val, fb);
                assert(e.code@ =~= c0 + (load(*base) + b1 + seq![0x72u8] + le16(field_idx)));
            }
        },
        Instr::IsNone { dst, val } => {
            emit_load(e, *val);
            e.emit_op(Op::IsNone);
            emit_store(e, *dst, float_bits);
            assert(e.code@ =~= c0 + (load(*val) + seq![0x83u8] + store(*dst)));
        },
        Instr::IsErr { dst, val } => {
            emit_load(e, *val);
            e.emit_op(Op::IsErr);
            emit_store(e, *dst, float_bits);
            assert(e.code@ =~= c0 + (load(*val) + seq![0x84u8] + store(*dst)));
        },
        Instr::Unwrap { dst, val } => {
            emit_load(e, *val);
            e.emit_op(Op::Unwrap);
            emit_store(e, *dst, float_bits);
            assert(e.code@ =~= c0 + (load(*val) + seq![0x85u8] + store(*dst)));
        },
        Instr::Closure { dst, fn_name, captures } => {
            let mut k: usize = 0;
            while k < captures.len()
                invariant
                    e.wf(),
                    k <= captures@.len(),
                    e.state() == (EmitState { code: c0 + loads(captures@.subrange(0, k as int)), ..old(e).state() }),
                decreases captures.len() - k,
            {
                emit_load(e, captures[k]);
                proof {
                    let sub = captures@.subrange(0, k + 1);
                    assert(sub.drop_last() =~= captures@.subrange(0, k as int));
                    assert(e.code@ =~= c0 + loads(sub));
                }
                k = k + 1;
            }
            assert(captures@.subrange(0, k as int) =~= captures@);
            let fn_idx = e.pool.intern_str(fn_name.as_str());
            e.emit_op(Op::MakeClosure);
            e.emit_u16(fn_idx);
            e.emit_u8(#[verifier::truncate] (captures.len() as u8));
            emit_store(e, *dst, float_bits);
            assert(e.code@ =~= c0 + (loads(captures@) + seq![0x90u8] + le16(fn_idx) + seq![captures@.len() as u8] + store(*dst)));
        },
        Instr::Nop => {
            e.emit_op(Op::Nop);
            assert(e.code@ =~= c0 + seq![0xFFu8]);
        },
        _ => {},
    }
}

/// Emits one instruction.
fn emit_instr<F: Fn(&str) -> u64>(e: &mut FnEmitter, instr: &Instr, float_bits: &F)
    requires
        old(e).wf(),
        float_bits_ok(*float_bits),
    ensures
        final(e).wf(),
        ({
            let (p, b) = instr_code(old(e).pool@, *instr, float_bits_of(*float_bits));
            final(e).state() == (EmitState { pool: p, code: old(e).code@ + b, ..old(e).state() })
        }),
{
    match instr {
        Instr::Assign { .. } | Instr::BinOp { .. } | Instr::UnOp { .. } => emit_instr_a(
            e,
            instr,
            float_bits,
        ),
        Instr::WrapSome { .. } | Instr::WrapOk { .. } | Instr::WrapErr { .. } => emit_instr_w(
            e,
            instr,
            float_bits,
        ),
        Instr::Call { .. } | Instr::NewStruct { .. } | Instr::NewArray { .. } | Instr::ArrayGet { .. }
        | Instr::ArraySet { .. } => emit_instr_b(e, instr, float_bits),
        _ => emit_instr_c(e, instr, float_bits),
    }
}

#[verifier::spinoff_prover]
#[verifier::rlimit(40)]
fn emit_term<F: Fn(&str) -> u64>(e: &mut FnEmitter, term: &Terminator, float_bits: &F)
    requires
        old(e).wf(),
        float_bits_ok(*float_bits),
    ensures
        final(e).wf(),
        final(e).state() == term_step(old(e).state(), *term, float_bits_of(*float_bits)),
{
    let ghost c0 = e.code@;
    let ghost fb = float_bits_of(*float_bits);
    match term {
        Terminator::Return(Some(val)) => {
            emit_value(e, val, float_bits);
            e.emit_op(Op::Return);
            proof {
                let (p, b) = value_code(old(e).pool@, *val, fb);
                assert(e.code@ =~= c0 + b + seq![0x62u8]);
            }
        },
        Terminator::Return(None) => {
            e.emit_op(Op::ReturnVoid);
            assert(e.code@ =~= c0 + seq![0x63u8]);
        },
        Terminator::Jump(target) => {
            e.emit_op(Op::Jump);
            e.emit_jump_placeholder(*target);
            assert(e.code@ =~= c0 + seq![0x50u8] + placeholder());
        },
        Terminator::Branch { cond, then_bb, else_bb } => {
            emit_value(e, cond, float_bits);
            e.emit_op(Op::JumpT);
            e.emit_jump_placeholder(*then_bb);
            e.emit_op(Op::Jump);
            e.emit_jump_placeholder(*else_bb);
            proof {
                let (p, b) = value_code(old(e).pool@, *cond, fb);
                assert(e.code@ =~= c0 + b + seq![0x51u8] + placeholder() + seq![0x50u8] + placeholder());
            }
        },
        Terminator::Unreachable => {
            e.emit_op(Op::ReturnVoid);
            assert(e.code@ =~= c0 + seq![0x63u8]);
        },
    }
}

fn emit_block<F: Fn(&str) -> u64>(e: &mut FnEmitter, bb: &BasicBlock, float_bits: &F)
    requires
        old(e).wf(),
        float_bits_ok(*float_bits),
    ensures
        final(e).wf(),
        final(e).state() == block_step(old(e).state(), *bb, float_bits_of(*float_bits)),
{
    let ghost fb = float_bits_of(*float_bits);
    e.begin_block(bb.id);
    let ghost s0 = e.state();
    let mut i: usize = 0;
    while i < bb.instrs.len()
        invariant
            e.wf(),
            float_bits_ok(*float_bits),
            fb == float_bits_of(*float_bits),
            i <= bb.instrs@.len(),
            e.state() == instrs_step(s0, bb.instrs@.subrange(0, i as int), fb),
        decreases bb.instrs.len() - i,
    {
        emit_instr(e, &bb.instrs[i], float_bits);
        proof {
            let sub = bb.instrs@.subrange(0, i + 1);
            assert(sub.drop_last() =~= bb.instrs@.subrange(0, i as int));
        }
        i = i + 1;
    }
    assert(bb.instrs@.subrange(0, i as int) =~= bb.instrs@);
    emit_term(e, &bb.term, float_bits);
}

fn emit_fn<F: Fn(&str) -> u64>(pool: &mut ConstPool, f: &IrFn, float_bits: &F) -> (r: BcFn)
    requires
        float_bits_ok(*float_bits),
    ensures
        (final(pool)@, r@) == fn_emit(old(pool)@, *f, float_bits_of(*float_bits)),
{
    let ghost fb = float_bits_of(*float_bits);
    let name_idx = pool.intern_str(f.name.as_str());
    let ghost p0 = pool@;
    let mut taken = ConstPool::new();
    std::mem::swap(&mut taken, pool);
    assert(taken@ == p0);
    let mut emitter = FnEmitter::new(taken);
    let ghost s0 = emitter.state();
    let mut i: usize = 0;
    while i < f.blocks.len()
        invariant
            emitter.wf(),
            float_bits_ok(*float_bits),
            fb == float_bits_of(*float_bits),
            i <= f.blocks@.len(),
            emitter.state() == blocks_step(s0, f.blocks@.subrange(0, i as int), fb),
        decreases f.blocks.len() - i,
    {
        emit_block(&mut emitter, &f.blocks[i], float_bits);
        proof {
            let sub = f.blocks@.subrange(0, i + 1);
            assert(sub.drop_last() =~= f.blocks@.subrange(0, i as int));
        }
        i = i + 1;
    }
    assert(f.blocks@.subrange(0, i as int) =~= f.blocks@);
    let ghost st = emitter.state();
    emitter.backpatch();
    let FnEmitter { pool: p, code, block_offsets: _, patches: _ } = emitter;
    let mut p = p;
    std::mem::swap(pool, &mut p);
    assert(pool@ == st.pool);
    assert(code@ == patch_all(st.code, st.patches, st.offsets));
    assert(st == blocks_step(initial_state(p0), f.blocks@, fb));
    BcFn {
        name_idx,
        param_count: #[verifier::truncate] (f.params.len() as u8),
        local_count: #[verifier::truncate] (f.num_locals as u16),
        code,
        is_export: f.is_export,
        is_async: f.is_async,
    }
}

/// Emits every function of `ir` into a new module named after `source`.
/// `float_bits` gives the IEEE-754 bit pattern of a float literal's text.
pub fn emit_module<F: Fn(&str) -> u64>(ir: &IrModule, source: &str, float_bits: &F) -> (m: BytecodeModule)
    requires
        float_bits_ok(*float_bits),
    ensures
        m.source@ == source@,
        forall|i: int| 0 <= i < 32 ==> m.src_hash@[i] == 0u8,
        (m.const_pool@, m@.fns) == fns_emit(Seq::<ConstValueV>::empty(), ir.fns@, float_bits_of(*float_bits)),
{
    let ghost fb = float_bits_of(*float_bits);
    let mut bc = BytecodeModule::new(source);
    let mut i: usize = 0;
    while i < ir.fns.len()
        invariant
            float_bits_ok(*float_bits),
            fb == float_bits_of(*float_bits),
            i <= ir.fns@.len(),
            bc.source@ == source@,
            forall|k: int| 0 <= k < 32 ==> bc.src_hash@[k] == 0u8,
            (bc.const_pool@, bc@.fns) == fns_emit(Seq::<ConstValueV>::empty(), ir.fns@.subrange(0, i as int), fb),
        decreases ir.fns.len() - i,
    {
        let f = emit_fn(&mut bc.const_pool, &ir.fns[i], float_bits);
        let ghost fv = f@;
        let ghost before = bc.fns@.map_values(|g: BcFn| g@);
        bc.fns.push(f);
        proof {
            let sub = ir.fns@.subrange(0, i + 1);
            assert(sub.drop_last() =~= ir.fns@.subrange(0, i as int));
            assert(bc.fns@.map_values(|g: BcFn| g@) =~= before.push(fv));
        }
        i = i + 1;
    }
    assert(ir.fns@.subrange(0, i as int) =~= ir.fns@);
    bc
}

} // verus!
