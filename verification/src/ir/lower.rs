//! AST → IR lowering.
//!
//! Walks the AST and emits IR instructions into a control-flow graph of
//! basic blocks.  Each expression yields the local its value lands in, or
//! nothing for a void expression.

use vstd::prelude::*;
use crate::ast::{
    Module, Item, FnDef, ImplBlock, ImplItem, ConstItem, Block, Stmt, Expr, ExprKind, Pattern,
    PatternKind, LitPat, MatchArm, FieldInit, TemplatePart, UnaryOp, BinaryOp, Visibility, Type, Param,
};
use crate::ir::ir::{
    IrLocal, BlockId, IrType, Constant, Value, BinOp, UnOp, Instr, Terminator, BasicBlock, Target, IrFn,
    IrGlobal, IrModule,
};
use crate::text::{string_of, push_str, u64_to_string, str_eq};

verus! {

broadcast use vstd::std_specs::vec::axiom_vec_index_decreases;

// ── Well-formed IR ───────────────────────────────────────────────────────────

pub open spec fn value_ok(v: Value, n: u32) -> bool {
    match v {
        Value::Local(l) => l.0 < n,
        _ => true,
    }
}

/// Every local the instruction names is below `n`.
pub open spec fn instr_ok(i: Instr, n: u32) -> bool {
    match i {
        Instr::Assign { dst, src } => dst.0 < n && value_ok(src, n),
        Instr::BinOp { dst, lhs, rhs, .. } => dst.0 < n && value_ok(lhs, n) && value_ok(rhs, n),
        Instr::UnOp { dst, src, .. } => dst.0 < n && value_ok(src, n),
        Instr::Call { dst, func, args } => (dst matches Some(d) ==> d.0 < n) && value_ok(func, n) && forall|k: int|
            0 <= k < args@.len() ==> value_ok(#[trigger] args@[k], n),
        Instr::NewStruct { dst, fields, .. } => dst.0 < n && forall|k: int|
            0 <= k < fields@.len() ==> value_ok((#[trigger] fields@[k]).1, n),
        Instr::GetField { dst, base, .. } => dst.0 < n && base.0 < n,
        Instr::SetField { base, val, .. } => base.0 < n && value_ok(val, n),
        Instr::NewArray { dst, elems } => dst.0 < n && forall|k: int| 0 <= k < elems@.len() ==> value_ok(#[trigger] elems@[k], n),
        Instr::ArrayGet { dst, array, idx } => dst.0 < n && array.0 < n && value_ok(idx, n),
        Instr::ArraySet { array, idx, val } => array.0 < n && value_ok(idx, n) && value_ok(val, n),
        Instr::WrapSome { dst, val } => dst.0 < n && value_ok(val, n),
        Instr::WrapOk { dst, val } => dst.0 < n && value_ok(val, n),
        Instr::WrapErr { dst, val } => dst.0 < n && value_ok(val, n),
        Instr::IsNone { dst, val } => dst.0 < n && val.0 < n,
        Instr::IsErr { dst, val } => dst.0 < n && val.0 < n,
        Instr::Unwrap { dst, val } => dst.0 < n && val.0 < n,
        Instr::Closure { dst, captures, .. } => dst.0 < n && forall|k: int| 0 <= k < captures@.len() ==> (#[trigger] captures@[k]).0 < n,
        Instr::Nop => true,
    }
}

/// The terminator names locals below `n` and blocks below `nb`.
pub open spec fn term_ok(t: Terminator, n: u32, nb: int) -> bool {
    match t {
        Terminator::Return(Some(v)) => value_ok(v, n),
        Terminator::Return(None) => true,
        Terminator::Jump(b) => (b.0 as int) < nb,
        Terminator::Branch { cond, then_bb, else_bb } => value_ok(cond, n) && (then_bb.0 as int) < nb && (else_bb.0 as int) < nb,
        Terminator::Unreachable => true,
    }
}

/// Block `b` sits at position `idx`, and names only locals below `n` and
/// blocks below `nb`.
pub open spec fn block_ok(b: BasicBlock, idx: int, n: u32, nb: int) -> bool {
    &&& b.id.0 == idx
    &&& forall|k: int| 0 <= k < b.instrs@.len() ==> instr_ok(#[trigger] b.instrs@[k], n)
    &&& term_ok(b.term, n, nb)
}

/// A well-formed IR function: blocks numbered by position, every local
/// (parameters included) below `num_locals`, every jump to an existing
/// block, and an entry block.
pub open spec fn ir_fn_wf(f: IrFn) -> bool {
    &&& f.blocks@.len() > 0
    &&& forall|i: int| 0 <= i < f.blocks@.len() ==> block_ok(#[trigger] f.blocks@[i], i, f.num_locals, f.blocks@.len() as int)
    &&& forall|i: int| 0 <= i < f.params@.len() ==> (#[trigger] f.params@[i]).0 < f.num_locals
}

proof fn lemma_value_mono(v: Value, n: u32, m: u32)
    requires
        value_ok(v, n),
        n <= m,
    ensures
        value_ok(v, m),
{
}

proof fn lemma_instr_mono(i: Instr, n: u32, m: u32)
    requires
        instr_ok(i, n),
        n <= m,
    ensures
        instr_ok(i, m),
{
    match i {
        Instr::Call { dst, func, args } => {
            assert forall|k: int| 0 <= k < args@.len() implies value_ok(#[trigger] args@[k], m) by {
                lemma_value_mono(args@[k], n, m);
            }
        },
        Instr::NewStruct { dst, fields, .. } => {
            assert forall|k: int| 0 <= k < fields@.len() implies value_ok((#[trigger] fields@[k]).1, m) by {
                lemma_value_mono(fields@[k].1, n, m);
            }
        },
        Instr::NewArray { dst, elems } => {
            assert forall|k: int| 0 <= k < elems@.len() implies value_ok(#[trigger] elems@[k], m) by {
                lemma_value_mono(elems@[k], n, m);
            }
        },
        _ => {},
    }
}

proof fn lemma_block_mono(b: BasicBlock, idx: int, n: u32, nb: int, m: u32, mb: int)
    requires
        block_ok(b, idx, n, nb),
        n <= m,
        nb <= mb,
    ensures
        block_ok(b, idx, m, mb),
{
    assert forall|k: int| 0 <= k < b.instrs@.len() implies instr_ok(#[trigger] b.instrs@[k], m) by {
        lemma_instr_mono(b.instrs@[k], n, m);
    }
}

// ── Lowering budget ──────────────────────────────────────────────────────────

/// An upper bound on the locals and blocks that lowering an expression
/// creates.
pub open spec fn ecost(e: Expr) -> nat
    decreases e,
{
    10 + match e.kind {
        ExprKind::Unary { expr, .. } => ecost(*expr),
        ExprKind::Binary { lhs, rhs, .. } => ecost(*lhs) + ecost(*rhs),
        ExprKind::Assign { target, rhs } => ecost(*target) + ecost(*rhs),
        ExprKind::CompoundAssign { target, rhs, .. } => ecost(*target) + ecost(*rhs),
        ExprKind::If { cond, then, else_ } => ecost(*cond) + bcost(then) + match else_ {
            Some(x) => ecost(*x),
            None => 0,
        },
        ExprKind::Match { scrutinee, arms } => ecost(*scrutinee) + arms_cost(arms@),
        ExprKind::Loop(b) => bcost(b),
        ExprKind::While { cond, body } => ecost(*cond) + bcost(body),
        ExprKind::For { iter, body, .. } => ecost(*iter) + bcost(body),
        ExprKind::Return { value } => match value {
            Some(x) => ecost(*x),
            None => 0,
        },
        ExprKind::Call { callee, args } => ecost(*callee) + ecosts(args@),
        ExprKind::MethodCall { receiver, args, .. } => ecost(*receiver) + ecosts(args@),
        ExprKind::Field { base, .. } => ecost(*base),
        ExprKind::Index { base, index } => ecost(*base) + ecost(*index),
        ExprKind::StructLit { fields, .. } => fcosts(fields@),
        ExprKind::TupleLit(es) => ecosts(es@),
        ExprKind::ArrayLit(es) => ecosts(es@),
        ExprKind::ArrayRepeat { elem, len } => ecost(*elem) + ecost(*len),
        ExprKind::TemplateLit { parts } => pcosts(parts@),
        ExprKind::Await(x) => ecost(*x),
        ExprKind::Cast { expr, .. } => ecost(*expr),
        ExprKind::Block(b) => bcost(b),
        _ => 0,
    }
}

pub open spec fn ecosts(es: Seq<Expr>) -> nat
    decreases es,
{
    if es.len() == 0 {
        0
    } else {
        ecosts(es.drop_last()) + ecost(es.last())
    }
}

pub open spec fn fcosts(fs: Seq<FieldInit>) -> nat
    decreases fs,
{
    if fs.len() == 0 {
        0
    } else {
        fcosts(fs.drop_last()) + 1 + match fs.last().value {
            Some(v) => ecost(v),
            None => 0,
        }
    }
}

pub open spec fn pcosts(ps: Seq<TemplatePart>) -> nat
    decreases ps,
{
    if ps.len() == 0 {
        0
    } else {
        pcosts(ps.drop_last()) + 2 + match ps.last() {
            TemplatePart::Expr(x) => ecost(*x),
            TemplatePart::Str(_) => 0,
        }
    }
}

/// Locals that testing and binding a pattern creates, with room to spare.
pub open spec fn pat_cost(p: Pattern) -> nat
    decreases p,
{
    5 + match p.kind {
        PatternKind::TupleStruct { elems, .. } => if elems@.len() > 0 {
            pat_cost(elems@[0])
        } else {
            0
        },
        _ => 0,
    }
}

pub open spec fn arms_cost(arms: Seq<MatchArm>) -> nat
    decreases arms,
{
    if arms.len() == 0 {
        0
    } else {
        arms_cost(arms.drop_last()) + 10 + pat_cost(arms.last().pattern) + ecost(*arms.last().body) + match arms.last().guard {
            Some(g) => ecost(*g),
            None => 0,
        }
    }
}

pub open spec fn bcost(b: Block) -> nat
    decreases b,
{
    10 + scosts(b.stmts@) + match b.tail {
        Some(t) => ecost(*t),
        None => 0,
    }
}

pub open spec fn scosts(ss: Seq<Stmt>) -> nat
    decreases ss,
{
    if ss.len() == 0 {
        0
    } else {
        scosts(ss.drop_last()) + 10 + match ss.last() {
            Stmt::Let(l) => match l.init {
                Some(x) => ecost(x),
                None => 0,
            },
            Stmt::Expr(x, _) => ecost(x),
            Stmt::Item(_) => 0,
        }
    }
}

/// No closure stands where lowering reaches (lowering one is not
/// supported: it would lose the enclosing function's blocks).
pub open spec fn lowerable(e: Expr) -> bool
    decreases e,
{
    match e.kind {
        ExprKind::Closure { .. } => false,
        ExprKind::Unary { expr, .. } => lowerable(*expr),
        ExprKind::Binary { lhs, rhs, .. } => lowerable(*lhs) && lowerable(*rhs),
        ExprKind::Assign { target, rhs } => lowerable(*target) && lowerable(*rhs),
        ExprKind::CompoundAssign { target, rhs, .. } => lowerable(*target) && lowerable(*rhs),
        ExprKind::If { cond, then, else_ } => lowerable(*cond) && block_lowerable(then) && match else_ {
            Some(x) => lowerable(*x),
            None => true,
        },
        ExprKind::Match { scrutinee, arms } => lowerable(*scrutinee) && arms_lowerable(arms@),
        ExprKind::Loop(b) => block_lowerable(b),
        ExprKind::While { cond, body } => lowerable(*cond) && block_lowerable(body),
        ExprKind::For { iter, body, .. } => lowerable(*iter) && block_lowerable(body),
        ExprKind::Return { value } => match value {
            Some(x) => lowerable(*x),
            None => true,
        },
        ExprKind::Call { callee, args } => lowerable(*callee) && all_lowerable(args@),
        ExprKind::MethodCall { receiver, args, .. } => lowerable(*receiver) && all_lowerable(args@),
        ExprKind::Field { base, .. } => lowerable(*base),
        ExprKind::Index { base, index } => lowerable(*base) && lowerable(*index),
        ExprKind::StructLit { fields, .. } => fields_lowerable(fields@),
        ExprKind::TupleLit(es) => all_lowerable(es@),
        ExprKind::ArrayLit(es) => all_lowerable(es@),
        ExprKind::ArrayRepeat { elem, len } => lowerable(*elem) && lowerable(*len),
        ExprKind::TemplateLit { parts } => parts_lowerable(parts@),
        ExprKind::Await(x) => lowerable(*x),
        ExprKind::Cast { expr, .. } => lowerable(*expr),
        ExprKind::Block(b) => block_lowerable(b),
        _ => true,
    }
}

pub open spec fn all_lowerable(es: Seq<Expr>) -> bool
    decreases es,
{
    es.len() > 0 ==> all_lowerable(es.drop_last()) && lowerable(es.last())
}

pub open spec fn fields_lowerable(fs: Seq<FieldInit>) -> bool
    decreases fs,
{
    fs.len() > 0 ==> fields_lowerable(fs.drop_last()) && match fs.last().value {
        Some(v) => lowerable(v),
        None => true,
    }
}

pub open spec fn parts_lowerable(ps: Seq<TemplatePart>) -> bool
    decreases ps,
{
    ps.len() > 0 ==> parts_lowerable(ps.drop_last()) && match ps.last() {
        TemplatePart::Expr(x) => lowerable(*x),
        TemplatePart::Str(_) => true,
    }
}

pub open spec fn arms_lowerable(arms: Seq<MatchArm>) -> bool
    decreases arms,
{
    arms.len() > 0 ==> arms_lowerable(arms.drop_last()) && lowerable(*arms.last().body) && match arms.last().guard {
        Some(g) => lowerable(*g),
        None => true,
    }
}

pub open spec fn block_lowerable(b: Block) -> bool
    decreases b,
{
    stmts_lowerable(b.stmts@) && match b.tail {
        Some(t) => lowerable(*t),
        None => true,
    }
}

pub open spec fn stmts_lowerable(ss: Seq<Stmt>) -> bool
    decreases ss,
{
    ss.len() > 0 ==> stmts_lowerable(ss.drop_last()) && match ss.last() {
        Stmt::Let(l) => match l.init {
            Some(x) => lowerable(x),
            None => true,
        },
        Stmt::Expr(x, _) => lowerable(x),
        Stmt::Item(_) => true,
    }
}

/// Whether lowering `e` gives a value (a local holding it): literals,
/// named paths, operators, calls, accesses, constructors, template
/// literals and `match`; assignments, control flow, blocks, jumps, ranges
/// and macro calls give none.
pub open spec fn yields_value(e: Expr) -> bool
    decreases e,
{
    match e.kind {
        ExprKind::IntLit(_) | ExprKind::FloatLit(_) | ExprKind::BoolLit(_) | ExprKind::StrLit(_) | ExprKind::CharLit(_) => true,
        ExprKind::Path(p) => p.segments@.len() > 0,
        ExprKind::Binary { .. } | ExprKind::Unary { .. } => true,
        ExprKind::Call { .. } | ExprKind::MethodCall { .. } | ExprKind::Field { .. } | ExprKind::Index { .. } => true,
        ExprKind::ArrayLit(_) | ExprKind::TupleLit(_) | ExprKind::ArrayRepeat { .. } | ExprKind::StructLit { .. } => true,
        ExprKind::TemplateLit { .. } | ExprKind::Match { .. } => true,
        ExprKind::Await(x) => yields_value(*x),
        ExprKind::Cast { expr, .. } => yields_value(*expr),
        _ => false,
    }
}

/// The IR operator of a source operator.
pub open spec fn binop_spec(op: BinaryOp) -> BinOp {
    match op {
        BinaryOp::Add => BinOp::Add,
        BinaryOp::Sub => BinOp::Sub,
        BinaryOp::Mul => BinOp::Mul,
        BinaryOp::Div => BinOp::Div,
        BinaryOp::Rem => BinOp::Rem,
        BinaryOp::Eq => BinOp::Eq,
        BinaryOp::Ne => BinOp::Ne,
        BinaryOp::Lt => BinOp::Lt,
        BinaryOp::Le => BinOp::Le,
        BinaryOp::Gt => BinOp::Gt,
        BinaryOp::Ge => BinOp::Ge,
        BinaryOp::And => BinOp::And,
        BinaryOp::Or => BinOp::Or,
        BinaryOp::BitAnd => BinOp::BitAnd,
        BinaryOp::BitOr => BinOp::BitOr,
        BinaryOp::BitXor => BinOp::BitXor,
        BinaryOp::Shl => BinOp::Shl,
        BinaryOp::Shr => BinOp::Shr,
    }
}

/// The local `name` is bound to in one scope: its latest binding.
pub open spec fn frame_find(f: Seq<(String, IrLocal)>, name: Seq<char>) -> Option<IrLocal>
    decreases f.len(),
{
    if f.len() == 0 {
        None
    } else if f.last().0@ == name {
        Some(f.last().1)
    } else {
        frame_find(f.drop_last(), name)
    }
}

/// The local `name` is bound to: innermost scope first.
pub open spec fn scopes_find(ss: Seq<Vec<(String, IrLocal)>>, name: Seq<char>) -> Option<IrLocal>
    decreases ss.len(),
{
    if ss.len() == 0 {
        None
    } else {
        match frame_find(ss.last()@, name) {
            Some(l) => Some(l),
            None => scopes_find(ss.drop_last(), name),
        }
    }
}

// ── Lowering context ─────────────────────────────────────────────────────────

struct LowerCtx {
    fns: Vec<IrFn>,
    globals: Vec<IrGlobal>,
    // The function being lowered:
    blocks: Vec<BasicBlock>,
    cur_block: usize,
    next_local: u32,
    next_block: u32,
    /// Innermost scope last; within a scope the latest binding of a name
    /// wins.
    scopes: Vec<Vec<(String, IrLocal)>>,
}

impl LowerCtx {
    /// The function under construction is well formed so far.
    spec fn ok(&self) -> bool {
        &&& self.blocks@.len() == self.next_block as int
        &&& self.cur_block < self.blocks@.len()
        &&& forall|i: int| 0 <= i < self.blocks@.len() ==> block_ok(#[trigger] self.blocks@[i], i, self.next_local, self.next_block as int)
        &&& self.scopes@.len() >= 1
        &&& forall|s: int, k: int| 0 <= s < self.scopes@.len() && 0 <= k < self.scopes@[s]@.len() ==> (#[trigger] self.scopes@[s]@[k]).1.0 < self.next_local
        &&& forall|i: int| 0 <= i < self.fns@.len() ==> ir_fn_wf(#[trigger] self.fns@[i])
    }

    /// Room for `c` more locals and blocks.
    spec fn room(&self, c: nat) -> bool {
        &&& self.next_local + c <= u32::MAX
        &&& self.next_block + c <= u32::MAX
    }

    /// From `old`, at most `c` locals and blocks were added, and the scope
    /// stack and finished functions are as they were.
    spec fn within(&self, old: LowerCtx, c: int) -> bool {
        &&& old.next_local <= self.next_local
        &&& old.next_block <= self.next_block
        &&& (self.next_local - old.next_local) + (self.next_block - old.next_block) <= c
        &&& self.scopes@.len() == old.scopes@.len()
        &&& self.fns@ == old.fns@
        &&& self.globals@ == old.globals@
    }

    fn fresh_local(&mut self) -> (l: IrLocal)
        requires
            old(self).ok(),
            old(self).next_local < u32::MAX,
        ensures
            final(self).ok(),
            l.0 == old(self).next_local,
            final(self).cur_block == old(self).cur_block,
            final(self).next_local == old(self).next_local + 1,
            final(self).next_block == old(self).next_block,
            final(self).scopes@.len() == old(self).scopes@.len(),
            final(self).scopes@ == old(self).scopes@,
            final(self).fns@ == old(self).fns@,
            final(self).globals@ == old(self).globals@,
    {
        let l = IrLocal(self.next_local);
        self.next_local = self.next_local + 1;
        proof {
            assert forall|i: int| 0 <= i < self.blocks@.len() implies block_ok(#[trigger] self.blocks@[i], i, self.next_local, self.next_block as int) by {
                lemma_block_mono(self.blocks@[i], i, old(self).next_local, old(self).next_block as int, self.next_local, self.next_block as int);
            }
        }
        l
    }

    fn fresh_block(&mut self) -> (id: BlockId)
        requires
            old(self).ok(),
            old(self).next_block < u32::MAX,
        ensures
            final(self).ok(),
            id.0 == old(self).next_block,
            final(self).next_block == old(self).next_block + 1,
            final(self).next_local == old(self).next_local,
            final(self).cur_block == old(self).cur_block,
            final(self).scopes@.len() == old(self).scopes@.len(),
            final(self).fns@ == old(self).fns@,
            final(self).globals@ == old(self).globals@,
    {
        let id = BlockId(self.next_block);
        self.next_block = self.next_block + 1;
        self.blocks.push(BasicBlock::new(id));
        proof {
            assert forall|i: int| 0 <= i < self.blocks@.len() implies block_ok(#[trigger] self.blocks@[i], i, self.next_local, self.next_block as int) by {
                if i < old(self).blocks@.len() {
                    lemma_block_mono(self.blocks@[i], i, old(self).next_local, old(self).next_block as int, self.next_local, self.next_block as int);
                }
            }
        }
        id
    }

    fn emit(&mut self, instr: Instr)
        requires
            old(self).ok(),
            instr_ok(instr, old(self).next_local),
        ensures
            final(self).ok(),
            final(self).within(*old(self), 0),
            final(self).cur_block == old(self).cur_block,
            final(self).next_local == old(self).next_local,
            final(self).next_block == old(self).next_block,
            final(self).scopes@ == old(self).scopes@,
            final(self).blocks@.len() == old(self).blocks@.len(),
            final(self).blocks@[old(self).cur_block as int].instrs@ == old(self).blocks@[old(self).cur_block as int].instrs@.push(instr),
            final(self).blocks@[old(self).cur_block as int].term == old(self).blocks@[old(self).cur_block as int].term,
            final(self).blocks@[old(self).cur_block as int].id == old(self).blocks@[old(self).cur_block as int].id,
            forall|i: int| 0 <= i < old(self).blocks@.len() && i != old(self).cur_block ==> #[trigger] final(self).blocks@[i] == old(self).blocks@[i],
    {
        let c = self.cur_block;
        self.blocks[c].instrs.push(instr);
        proof {
            assert forall|i: int| 0 <= i < self.blocks@.len() implies block_ok(#[trigger] self.blocks@[i], i, self.next_local, self.next_block as int) by {
                if i == c {
                    let b = self.blocks@[i];
                    assert forall|k: int| 0 <= k < b.instrs@.len() implies instr_ok(#[trigger] b.instrs@[k], self.next_local) by {
                        if k < old(self).blocks@[i].instrs@.len() {
                            assert(b.instrs@[k] == old(self).blocks@[i].instrs@[k]);
                        }
                    }
                }
            }
        }
    }

    fn set_term(&mut self, term: Terminator)
        requires
            old(self).ok(),
            term_ok(term, old(self).next_local, old(self).next_block as int),
        ensures
            final(self).ok(),
            final(self).within(*old(self), 0),
            final(self).cur_block == old(self).cur_block,
    {
        let c = self.cur_block;
        self.blocks[c].term = term;
    }

    /// Whether the current block still has no terminator.
    fn cur_unterminated(&self) -> (b: bool)
        requires
            self.ok(),
    {
        match self.blocks[self.cur_block].term {
            Terminator::Unreachable => true,
            _ => false,
        }
    }

    fn switch_to(&mut self, id: BlockId)
        requires
            old(self).ok(),
            (id.0 as int) < old(self).blocks@.len(),
        ensures
            final(self).ok(),
            final(self).within(*old(self), 0),
    {
        self.cur_block = id.0 as usize;
    }

    fn push_scope(&mut self)
        requires
            old(self).ok(),
        ensures
            final(self).ok(),
            final(self).scopes@.len() == old(self).scopes@.len() + 1,
            final(self).cur_block == old(self).cur_block,
            final(self).next_local == old(self).next_local,
            final(self).next_block == old(self).next_block,
            final(self).fns@ == old(self).fns@,
            final(self).globals@ == old(self).globals@,
    {
        self.scopes.push(Vec::new());
    }

    fn pop_scope(&mut self)
        requires
            old(self).ok(),
            old(self).scopes@.len() >= 2,
        ensures
            final(self).ok(),
            final(self).scopes@.len() == old(self).scopes@.len() - 1,
            final(self).cur_block == old(self).cur_block,
            final(self).next_local == old(self).next_local,
            final(self).next_block == old(self).next_block,
            final(self).fns@ == old(self).fns@,
            final(self).globals@ == old(self).globals@,
    {
        self.scopes.pop();
    }

    fn define(&mut self, name: String, local: IrLocal)
        requires
            old(self).ok(),
            local.0 < old(self).next_local,
        ensures
            final(self).ok(),
            final(self).within(*old(self), 0),
            final(self).cur_block == old(self).cur_block,
            final(self).next_local == old(self).next_local,
            final(self).next_block == old(self).next_block,
            final(self).blocks@ == old(self).blocks@,
            final(self).scopes@.len() == old(self).scopes@.len(),
            final(self).scopes@.last()@ == old(self).scopes@.last()@.push((name, local)),
            forall|s: int| 0 <= s < old(self).scopes@.len() - 1 ==> #[trigger] final(self).scopes@[s] == old(self).scopes@[s],
    {
        let last = self.scopes.len() - 1;
        self.scopes[last].push((name, local));
        proof {
            assert forall|s: int, k: int| 0 <= s < self.scopes@.len() && 0 <= k < self.scopes@[s]@.len() implies (#[trigger] self.scopes@[s]@[k]).1.0 < self.next_local by {
                if s == last && k < old(self).scopes@[s]@.len() {
                    assert(self.scopes@[s]@[k] == old(self).scopes@[s]@[k]);
                }
            }
        }
    }

    fn lookup(&self, name: &str) -> (r: Option<IrLocal>)
        requires
            self.ok(),
        ensures
            r == scopes_find(self.scopes@, name@),
            r matches Some(l) ==> l.0 < self.next_local,
    {
        let mut s = self.scopes.len();
        assert(self.scopes@.subrange(0, s as int) =~= self.scopes@);
        while s > 0
            invariant
                self.ok(),
                s <= self.scopes@.len(),
                scopes_find(self.scopes@, name@) == scopes_find(self.scopes@.subrange(0, s as int), name@),
            decreases s,
        {
            let scope = &self.scopes[s - 1];
            let ghost sub = self.scopes@.subrange(0, s as int);
            assert(sub.last() == *scope);
            assert(sub.drop_last() =~= self.scopes@.subrange(0, s - 1));
            let mut k = scope.len();
            assert(scope@.subrange(0, k as int) =~= scope@);
            while k > 0
                invariant
                    self.ok(),
                    1 <= s <= self.scopes@.len(),
                    *scope == self.scopes@[s - 1],
                    k <= scope@.len(),
                    sub == self.scopes@.subrange(0, s as int),
                    scopes_find(self.scopes@, name@) == scopes_find(sub, name@),
                    frame_find(scope@, name@) == frame_find(scope@.subrange(0, k as int), name@),
                decreases k,
            {
                let ghost f = scope@.subrange(0, k as int);
                assert(f.last() == scope@[k - 1]);
                assert(f.drop_last() =~= scope@.subrange(0, k - 1));
                if str_eq(scope[k - 1].0.as_str(), name) {
                    assert(frame_find(f, name@) == Some(scope@[k - 1].1));
                    assert(sub.last() == *scope);
                    assert(scopes_find(sub, name@) == Some(scope@[k - 1].1));
                    return Some(scope[k - 1].1);
                }
                k = k - 1;
            }
            assert(scope@.subrange(0, 0) =~= Seq::<(String, IrLocal)>::empty());
            s = s - 1;
        }
        assert(self.scopes@.subrange(0, 0) =~= Seq::<Vec<(String, IrLocal)>>::empty());
        None
    }

    /// Starts a new function: one entry block, one scope, no locals.
    fn begin_fn(&mut self)
        requires
            forall|i: int| 0 <= i < old(self).fns@.len() ==> ir_fn_wf(#[trigger] old(self).fns@[i]),
        ensures
            final(self).ok(),
            final(self).next_local == 0,
            final(self).next_block == 1,
            final(self).scopes@.len() == 1,
            final(self).fns@ == old(self).fns@,
            final(self).globals@ == old(self).globals@,
    {
        self.blocks = Vec::new();
        self.cur_block = 0;
        self.next_local = 0;
        self.next_block = 0;
        self.scopes = Vec::new();
        self.scopes.push(Vec::new());
        let id = BlockId(0);
        self.next_block = 1;
        self.blocks.push(BasicBlock::new(id));
    }
}

// ── Expressions ──────────────────────────────────────────────────────────────

spec fn vals_ok(vs: Seq<Value>, n: u32) -> bool {
    forall|k: int| 0 <= k < vs.len() ==> value_ok(#[trigger] vs[k], n)
}

proof fn lemma_vals_mono(vs: Seq<Value>, n: u32, m: u32)
    requires
        vals_ok(vs, n),
        n <= m,
    ensures
        vals_ok(vs, m),
{
}

/// Lowers each expression, left to right, to a value.
fn lower_vals(ctx: &mut LowerCtx, es: &Vec<Expr>) -> (vals: Vec<Value>)
    requires
        old(ctx).ok(),
        old(ctx).room(ecosts(es@)),
        all_lowerable(es@),
    ensures
        final(ctx).ok(),
        final(ctx).within(*old(ctx), ecosts(es@) as int),
        vals@.len() == es@.len(),
        vals_ok(vals@, final(ctx).next_local),
    decreases es, 0nat,
{
    let ghost c0 = *ctx;
    let mut vals: Vec<Value> = Vec::new();
    let mut i: usize = 0;
    while i < es.len()
        invariant
            ctx.ok(),
            c0.room(ecosts(es@)),
            all_lowerable(es@),
            i <= es@.len(),
            ctx.within(c0, ecosts(es@.subrange(0, i as int)) as int),
            vals@.len() == i,
            vals_ok(vals@, ctx.next_local),
        decreases es.len() - i,
    {
        proof {
            lemma_ecosts_prefix(es@, i as int);
            lemma_lowerable_at(es@, i as int);
        }
        let ghost before = vals@;
        let ghost n0 = ctx.next_local;
        assert(decreases_to!(es => es@[i as int])) by {
            assert(decreases_to!(es => es@));
        }
        let v = lower_expr_val(ctx, &es[i]);
        vals.push(v);
        proof {
            lemma_vals_mono(before, n0, ctx.next_local);
            assert(vals@ == before.push(v));
        }
        i = i + 1;
    }
    assert(es@.subrange(0, i as int) =~= es@);
    vals
}

proof fn lemma_ecosts_prefix(es: Seq<Expr>, i: int)
    requires
        0 <= i < es.len(),
    ensures
        ecosts(es.subrange(0, i + 1)) == ecosts(es.subrange(0, i)) + ecost(es[i]),
        ecosts(es.subrange(0, i + 1)) <= ecosts(es),
    decreases es.len() - i,
{
    assert(es.subrange(0, i + 1).drop_last() =~= es.subrange(0, i));
    if i + 1 < es.len() {
        lemma_ecosts_prefix(es, i + 1);
    } else {
        assert(es.subrange(0, i + 1) =~= es);
    }
}

proof fn lemma_lowerable_at(es: Seq<Expr>, i: int)
    requires
        0 <= i < es.len(),
        all_lowerable(es),
    ensures
        lowerable(es[i]),
    decreases es.len(),
{
    if i < es.len() - 1 {
        lemma_lowerable_at(es.drop_last(), i);
    }
}

fn lower_expr_val(ctx: &mut LowerCtx, e: &Expr) -> (v: Value)
    requires
        old(ctx).ok(),
        old(ctx).room(ecost(*e)),
        lowerable(*e),
    ensures
        final(ctx).ok(),
        final(ctx).within(*old(ctx), ecost(*e) - 2),
        value_ok(v, final(ctx).next_local),
    decreases e, 6nat,
{
    match lower_expr(ctx, e) {
        Some(l) => Value::Local(l),
        None => Value::Const(Constant::Unit),
    }
}

fn lower_expr_local(ctx: &mut LowerCtx, e: &Expr) -> (l: IrLocal)
    requires
        old(ctx).ok(),
        old(ctx).room(ecost(*e)),
        lowerable(*e),
    ensures
        final(ctx).ok(),
        final(ctx).within(*old(ctx), ecost(*e) - 1),
        l.0 < final(ctx).next_local,
    decreases e, 7nat,
{
    match lower_expr_val(ctx, e) {
        Value::Local(l) => l,
        other => {
            let dst = ctx.fresh_local();
            ctx.emit(Instr::Assign { dst, src: other });
            dst
        },
    }
}

fn some_const(ctx: &mut LowerCtx, k: Constant) -> (r: Option<IrLocal>)
    requires
        old(ctx).ok(),
        old(ctx).room(1),
    ensures
        final(ctx).ok(),
        final(ctx).within(*old(ctx), 1),
        r matches Some(l) && l.0 < final(ctx).next_local,
{
    let dst = ctx.fresh_local();
    ctx.emit(Instr::Assign { dst, src: Value::Const(k) });
    Some(dst)
}

fn binop(op: BinaryOp) -> (r: BinOp)
    ensures
        r == binop_spec(op),
{
    match op {
        BinaryOp::Add => BinOp::Add,
        BinaryOp::Sub => BinOp::Sub,
        BinaryOp::Mul => BinOp::Mul,
        BinaryOp::Div => BinOp::Div,
        BinaryOp::Rem => BinOp::Rem,
        BinaryOp::Eq => BinOp::Eq,
        BinaryOp::Ne => BinOp::Ne,
        BinaryOp::Lt => BinOp::Lt,
        BinaryOp::Le => BinOp::Le,
        BinaryOp::Gt => BinOp::Gt,
        BinaryOp::Ge => BinOp::Ge,
        BinaryOp::And => BinOp::And,
        BinaryOp::Or => BinOp::Or,
        BinaryOp::BitAnd => BinOp::BitAnd,
        BinaryOp::BitOr => BinOp::BitOr,
        BinaryOp::BitXor => BinOp::BitXor,
        BinaryOp::Shl => BinOp::Shl,
        BinaryOp::Shr => BinOp::Shr,
    }
}

/// Lowers an expression; returns the local its value lands in.
#[verifier::rlimit(80)]
/// The instructions of the block being filled.
spec fn cur_instrs(c: LowerCtx) -> Seq<Instr> {
    c.blocks@[c.cur_block as int].instrs@
}

/// What the lowering of `e` leaves last in the block being filled: the
/// operation of a binary expression, writing its result; the store of an
/// assignment to a bound name; for `x op= v`, the operation and then its
/// result stored back into `x`.
spec fn lowering_ends(e: Expr, c: LowerCtx, r: Option<IrLocal>) -> bool {
    match e.kind {
        ExprKind::Binary { op, .. } => {
            &&& r is Some
            &&& cur_instrs(c).len() > 0
            &&& cur_instrs(c).last() is BinOp
            &&& cur_instrs(c).last()->BinOp_dst == r->0
            &&& cur_instrs(c).last()->BinOp_op == binop_spec(op)
        },
        ExprKind::Assign { target, .. } => bound_target(*target, c) matches Some(l) ==> {
            &&& cur_instrs(c).len() > 0
            &&& cur_instrs(c).last() is Assign
            &&& cur_instrs(c).last()->Assign_dst == l
        },
        ExprKind::CompoundAssign { op, target, .. } => bound_target(*target, c) matches Some(l) ==> {
            let is = cur_instrs(c);
            &&& is.len() >= 2
            &&& is[is.len() - 2] is BinOp
            &&& is[is.len() - 2]->BinOp_op == binop_spec(op)
            &&& is.last() == Instr::Assign { dst: l, src: Value::Local(is[is.len() - 2]->BinOp_dst) }
        },
        _ => true,
    }
}

/// The local that a name target is bound to in the scopes of `c`.
spec fn bound_target(t: Expr, c: LowerCtx) -> Option<IrLocal> {
    match t.kind {
        ExprKind::Path(p) => if p.segments@.len() > 0 {
            scopes_find(c.scopes@, p.segments@[0].name@)
        } else {
            None
        },
        _ => None,
    }
}

fn lower_expr(ctx: &mut LowerCtx, expr: &Expr) -> (r: Option<IrLocal>)
    requires
        old(ctx).ok(),
        old(ctx).room(ecost(*expr)),
        lowerable(*expr),
    ensures
        final(ctx).ok(),
        final(ctx).within(*old(ctx), ecost(*expr) - 2),
        r matches Some(l) ==> l.0 < final(ctx).next_local,
        r is Some <==> yields_value(*expr),
        lowering_ends(*expr, *final(ctx), r),
    decreases expr, 5nat,
{
    let ghost c0 = *ctx;
    assert(decreases_to!(expr => expr.kind));
    match &expr.kind {
        ExprKind::IntLit(n) => some_const(ctx, Constant::I32(#[verifier::truncate] (*n as i32))),
        ExprKind::FloatLit(f) => some_const(ctx, Constant::F64(f.clone())),
        ExprKind::BoolLit(b) => some_const(ctx, Constant::Bool(*b)),
        ExprKind::StrLit(s) => some_const(ctx, Constant::Str(s.clone())),
        ExprKind::CharLit(c) => some_const(ctx, Constant::I32(*c as i32)),
        ExprKind::Path(path) => {
            if path.segments.len() > 0 {
                let seg = &path.segments[0];
                if let Some(local) = ctx.lookup(seg.name.as_str()) {
                    return Some(local);
                }
                let dst = ctx.fresh_local();
                ctx.emit(Instr::Assign { dst, src: Value::Global(seg.name.clone()) });
                return Some(dst);
            }
            None
        },
        ExprKind::Block(b) => {
            lower_block(ctx, b);
            None
        },
        ExprKind::Break { .. } | ExprKind::Continue => None,
        ExprKind::Await(e) => lower_expr(ctx, e),
        ExprKind::Cast { expr: inner, .. } => lower_expr(ctx, inner),
        ExprKind::Closure { .. } => None,
        ExprKind::Range { .. } | ExprKind::MacroCall { .. } => None,
        ExprKind::Binary { .. } | ExprKind::Unary { .. } | ExprKind::Assign { .. } | ExprKind::CompoundAssign { .. } => lower_ops(ctx, expr),
        ExprKind::If { .. } | ExprKind::While { .. } | ExprKind::For { .. } | ExprKind::Loop(_) | ExprKind::Match { .. } | ExprKind::Return { .. } => lower_control(ctx, expr),
        _ => lower_access(ctx, expr),
    }
}

fn lower_ops(ctx: &mut LowerCtx, expr: &Expr) -> (r: Option<IrLocal>)
    requires
        old(ctx).ok(),
        old(ctx).room(ecost(*expr)),
        lowerable(*expr),
        expr.kind is Binary || expr.kind is Unary || expr.kind is Assign || expr.kind is CompoundAssign,
    ensures
        final(ctx).ok(),
        final(ctx).within(*old(ctx), ecost(*expr) - 2),
        r matches Some(l) ==> l.0 < final(ctx).next_local,
        r is Some <==> yields_value(*expr),
        lowering_ends(*expr, *final(ctx), r),
    decreases expr, 4nat,
{
    let ghost c0 = *ctx;
    assert(decreases_to!(expr => expr.kind));
    match &expr.kind {
        ExprKind::Binary { op, lhs, rhs } => {
            let l = lower_expr_val(ctx, lhs);
            let ghost n1 = ctx.next_local;
            let r = lower_expr_val(ctx, rhs);
            proof { lemma_value_mono(l, n1, ctx.next_local); }
            let dst = ctx.fresh_local();
            proof {
                lemma_value_mono(l, n1, ctx.next_local);
                lemma_value_mono(r, (ctx.next_local - 1) as u32, ctx.next_local);
            }
            ctx.emit(Instr::BinOp { dst, op: binop(*op), lhs: l, rhs: r });
            Some(dst)
        },
        ExprKind::Unary { op, expr: operand } => {
            let src = lower_expr_val(ctx, operand);
            let dst = ctx.fresh_local();
            proof { lemma_value_mono(src, (ctx.next_local - 1) as u32, ctx.next_local); }
            let ir_op = match op {
                UnaryOp::Neg => UnOp::Neg,
                UnaryOp::Not => UnOp::Not,
                UnaryOp::Deref => {
                    return Some(ctx.fresh_local());
                },
            };
            ctx.emit(Instr::UnOp { dst, op: ir_op, src });
            Some(dst)
        },
        ExprKind::Assign { target, rhs } => {
            let val = lower_expr_val(ctx, rhs);
            match &target.kind {
                ExprKind::Path(p) => {
                    if p.segments.len() > 0 {
                        if let Some(dst) = ctx.lookup(p.segments[0].name.as_str()) {
                            ctx.emit(Instr::Assign { dst, src: val });
                        }
                    }
                },
                ExprKind::Field { base, field } => {
                    assert(ecost(**target) == 10 + ecost(**base));
                    assert(lowerable(**target));
                    assert(lowerable(**base));
                    assert(decreases_to!(expr => *base)) by {
                        assert(decreases_to!(expr.kind => expr.kind->Assign_target));
                        assert(decreases_to!(*target => target.kind));
                        assert(decreases_to!(target.kind => target.kind->Field_base));
                    }
                    let ghost n1 = ctx.next_local;
                    let base_l = lower_expr_local(ctx, base);
                    proof { lemma_value_mono(val, n1, ctx.next_local); }
                    ctx.emit(Instr::SetField { base: base_l, field: field.clone(), val });
                },
                _ => {},
            }
            None
        },
        ExprKind::CompoundAssign { op, target, rhs } => {
            let lhs_val = lower_expr_val(ctx, target);
            let ghost n1 = ctx.next_local;
            let rhs_val = lower_expr_val(ctx, rhs);
            let tmp = ctx.fresh_local();
            proof {
                lemma_value_mono(lhs_val, n1, ctx.next_local);
                lemma_value_mono(rhs_val, (ctx.next_local - 1) as u32, ctx.next_local);
            }
            ctx.emit(Instr::BinOp { dst: tmp, op: binop(*op), lhs: lhs_val, rhs: rhs_val });
            match &target.kind {
                ExprKind::Path(p) => {
                    if p.segments.len() > 0 {
                        if let Some(dst) = ctx.lookup(p.segments[0].name.as_str()) {
                            ctx.emit(Instr::Assign { dst, src: Value::Local(tmp) });
                        }
                    }
                },
                _ => {},
            }
            None
        },
        _ => None,
    }
}

fn lower_access(ctx: &mut LowerCtx, expr: &Expr) -> (r: Option<IrLocal>)
    requires
        old(ctx).ok(),
        old(ctx).room(ecost(*expr)),
        lowerable(*expr),
        expr.kind is Call || expr.kind is MethodCall || expr.kind is Field || expr.kind is Index || expr.kind is ArrayLit || expr.kind is TupleLit || expr.kind is ArrayRepeat || expr.kind is StructLit || expr.kind is TemplateLit,
    ensures
        final(ctx).ok(),
        final(ctx).within(*old(ctx), ecost(*expr) - 2),
        r matches Some(l) ==> l.0 < final(ctx).next_local,
        r is Some <==> yields_value(*expr),
    decreases expr, 4nat,
{
    let ghost c0 = *ctx;
    assert(decreases_to!(expr => expr.kind));
    match &expr.kind {
        ExprKind::Call { callee, args } => {
            let func = lower_expr_val(ctx, callee);
            let ghost n1 = ctx.next_local;
            assert(decreases_to!(expr => *args)) by {
                assert(decreases_to!(expr.kind => expr.kind->Call_args));
            }
            let arg_vals = lower_vals(ctx, args);
            let dst = ctx.fresh_local();
            proof {
                lemma_value_mono(func, n1, ctx.next_local);
                lemma_vals_mono(arg_vals@, (ctx.next_local - 1) as u32, ctx.next_local);
            }
            ctx.emit(Instr::Call { dst: Some(dst), func, args: arg_vals });
            Some(dst)
        },
        ExprKind::MethodCall { receiver, method, args } => {
            let recv = lower_expr_local(ctx, receiver);
            let mut mname = string_of("__method_");
            push_str(&mut mname, method.as_str());
            let method_val = Value::Global(mname);
            let ghost n1 = ctx.next_local;
            assert(decreases_to!(expr => *args)) by {
                assert(decreases_to!(expr.kind => expr.kind->MethodCall_args));
            }
            let rest = lower_vals(ctx, args);
            let mut all_args: Vec<Value> = Vec::new();
            all_args.push(Value::Local(recv));
            let mut k: usize = 0;
            while k < rest.len()
                invariant
                    k <= rest@.len(),
                    all_args@.len() == k + 1,
                    vals_ok(rest@, ctx.next_local),
                    value_ok(all_args@[0], ctx.next_local),
                    forall|t: int| 1 <= t <= k ==> all_args@[t] == rest@[t - 1],
                decreases rest.len() - k,
            {
                all_args.push(copy_value(&rest[k]));
                k = k + 1;
            }
            let dst = ctx.fresh_local();
            proof {
                assert(recv.0 < n1);
                assert forall|t: int| 0 <= t < all_args@.len() implies value_ok(#[trigger] all_args@[t], ctx.next_local) by {
                    if t > 0 {
                        lemma_value_mono(rest@[t - 1], (ctx.next_local - 1) as u32, ctx.next_local);
                    }
                }
            }
            ctx.emit(Instr::Call { dst: Some(dst), func: method_val, args: all_args });
            Some(dst)
        },
        ExprKind::Field { base, field } => {
            let base_l = lower_expr_local(ctx, base);
            let dst = ctx.fresh_local();
            ctx.emit(Instr::GetField { dst, base: base_l, field: field.clone() });
            Some(dst)
        },
        ExprKind::Index { base, index } => {
            let array = lower_expr_local(ctx, base);
            let idx = lower_expr_val(ctx, index);
            let dst = ctx.fresh_local();
            proof { lemma_value_mono(idx, (ctx.next_local - 1) as u32, ctx.next_local); }
            ctx.emit(Instr::ArrayGet { dst, array, idx });
            Some(dst)
        },
        ExprKind::ArrayLit(elems) => {
            assert(decreases_to!(expr => *elems)) by {
                assert(decreases_to!(expr.kind => expr.kind->ArrayLit_0));
            }
            let vals = lower_vals(ctx, elems);
            let dst = ctx.fresh_local();
            proof { lemma_vals_mono(vals@, (ctx.next_local - 1) as u32, ctx.next_local); }
            ctx.emit(Instr::NewArray { dst, elems: vals });
            Some(dst)
        },
        ExprKind::TupleLit(elems) => {
            assert(decreases_to!(expr => *elems)) by {
                assert(decreases_to!(expr.kind => expr.kind->TupleLit_0));
            }
            let vals = lower_vals(ctx, elems);
            let dst = ctx.fresh_local();
            proof { lemma_vals_mono(vals@, (ctx.next_local - 1) as u32, ctx.next_local); }
            ctx.emit(Instr::NewArray { dst, elems: vals });
            Some(dst)
        },
        ExprKind::ArrayRepeat { elem, len } => {
            let val = lower_expr_val(ctx, elem);
            let ghost n1 = ctx.next_local;
            let _len_val = lower_expr_val(ctx, len);
            let dst = ctx.fresh_local();
            proof { lemma_value_mono(val, n1, ctx.next_local); }
            // A single-element array: repeating needs a loop.
            let mut elems: Vec<Value> = Vec::new();
            elems.push(val);
            ctx.emit(Instr::NewArray { dst, elems });
            Some(dst)
        },
        ExprKind::StructLit { ty, fields } => {
            assert(decreases_to!(expr => *fields)) by {
                assert(decreases_to!(expr.kind => expr.kind->StructLit_fields));
            }
            lower_struct_lit(ctx, ty, fields)
        },
        ExprKind::TemplateLit { parts } => {
            assert(decreases_to!(expr => *parts)) by {
                assert(decreases_to!(expr.kind => expr.kind->TemplateLit_parts));
            }
            Some(lower_template(ctx, parts))
        },
        _ => None,
    }
}

fn lower_control(ctx: &mut LowerCtx, expr: &Expr) -> (r: Option<IrLocal>)
    requires
        old(ctx).ok(),
        old(ctx).room(ecost(*expr)),
        lowerable(*expr),
        expr.kind is If || expr.kind is While || expr.kind is For || expr.kind is Loop || expr.kind is Match || expr.kind is Return,
    ensures
        final(ctx).ok(),
        final(ctx).within(*old(ctx), ecost(*expr) - 2),
        r matches Some(l) ==> l.0 < final(ctx).next_local,
        r is Some <==> yields_value(*expr),
    decreases expr, 4nat,
{
    let ghost c0 = *ctx;
    assert(decreases_to!(expr => expr.kind));
    match &expr.kind {
        ExprKind::If { cond, then, else_ } => {
            let cond_val = lower_expr_val(ctx, cond);
            let then_bb = ctx.fresh_block();
            let else_bb = ctx.fresh_block();
            let merge_bb = ctx.fresh_block();
            ctx.set_term(Terminator::Branch { cond: cond_val, then_bb, else_bb });
            ctx.switch_to(then_bb);
            lower_block(ctx, then);
            if ctx.cur_unterminated() {
                ctx.set_term(Terminator::Jump(merge_bb));
            }
            ctx.switch_to(else_bb);
            if let Some(eb) = else_ {
                lower_expr(ctx, eb);
            }
            if ctx.cur_unterminated() {
                ctx.set_term(Terminator::Jump(merge_bb));
            }
            ctx.switch_to(merge_bb);
            None
        },
        ExprKind::While { cond, body } => {
            let cond_bb = ctx.fresh_block();
            let body_bb = ctx.fresh_block();
            let exit_bb = ctx.fresh_block();
            ctx.set_term(Terminator::Jump(cond_bb));
            ctx.switch_to(cond_bb);
            let cv = lower_expr_val(ctx, cond);
            ctx.set_term(Terminator::Branch { cond: cv, then_bb: body_bb, else_bb: exit_bb });
            ctx.switch_to(body_bb);
            lower_block(ctx, body);
            ctx.set_term(Terminator::Jump(cond_bb));
            ctx.switch_to(exit_bb);
            None
        },
        ExprKind::For { pat, iter, body } => {
            let iter_local = lower_expr_local(ctx, iter);
            let idx = ctx.fresh_local();
            let len = ctx.fresh_local();
            let cond_v = ctx.fresh_local();
            let elem = ctx.fresh_local();
            ctx.emit(Instr::Assign { dst: idx, src: Value::Const(Constant::I32(0)) });
            ctx.emit(Instr::GetField { dst: len, base: iter_local, field: string_of("length") });
            let header_bb = ctx.fresh_block();
            let body_bb = ctx.fresh_block();
            let exit_bb = ctx.fresh_block();
            ctx.set_term(Terminator::Jump(header_bb));
            ctx.switch_to(header_bb);
            ctx.emit(Instr::BinOp { dst: cond_v, op: BinOp::Lt, lhs: Value::Local(idx), rhs: Value::Local(len) });
            ctx.set_term(Terminator::Branch { cond: Value::Local(cond_v), then_bb: body_bb, else_bb: exit_bb });
            ctx.switch_to(body_bb);
            ctx.emit(Instr::ArrayGet { dst: elem, array: iter_local, idx: Value::Local(idx) });
            ctx.push_scope();
            if let PatternKind::Ident { name, .. } = &pat.kind {
                ctx.define(name.clone(), elem);
            }
            lower_block(ctx, body);
            ctx.pop_scope();
            ctx.emit(Instr::BinOp { dst: idx, op: BinOp::Add, lhs: Value::Local(idx), rhs: Value::Const(Constant::I32(1)) });
            ctx.set_term(Terminator::Jump(header_bb));
            ctx.switch_to(exit_bb);
            None
        },
        ExprKind::Loop(body) => {
            let loop_bb = ctx.fresh_block();
            ctx.set_term(Terminator::Jump(loop_bb));
            ctx.switch_to(loop_bb);
            lower_block(ctx, body);
            ctx.set_term(Terminator::Jump(loop_bb));
            None
        },
        ExprKind::Match { scrutinee, arms } => {
            let scrut = lower_expr_local(ctx, scrutinee);
            assert(decreases_to!(expr => *arms)) by {
                assert(decreases_to!(expr.kind => expr.kind->Match_arms));
            }
            Some(lower_arms(ctx, scrut, arms))
        },
        ExprKind::Return { value } => {
            let val = match value {
                Some(e) => Some(lower_expr_val(ctx, e)),
                None => None,
            };
            ctx.set_term(Terminator::Return(val));
            let dead = ctx.fresh_block();
            ctx.switch_to(dead);
            None
        },
        _ => None,
    }
}

fn lower_struct_lit(ctx: &mut LowerCtx, ty: &crate::ast::Path, fields: &Vec<FieldInit>) -> (r: Option<IrLocal>)
    requires
        old(ctx).ok(),
        old(ctx).room(fcosts(fields@) + 10),
        fields_lowerable(fields@),
    ensures
        final(ctx).ok(),
        final(ctx).within(*old(ctx), fcosts(fields@) as int + 8),
        r matches Some(l) ==> l.0 < final(ctx).next_local,
        r is Some,
    decreases fields, 0nat,
{
    let ghost c0 = *ctx;
    let ty_name = if ty.segments.len() > 0 {
        ty.segments[ty.segments.len() - 1].name.clone()
    } else {
        string_of("_")
    };
    let mut ir_fields: Vec<(String, Value)> = Vec::new();
    let mut i: usize = 0;
    while i < fields.len()
        invariant
            ctx.ok(),
            c0.room(fcosts(fields@) + 10),
            fields_lowerable(fields@),
            i <= fields@.len(),
            ctx.within(c0, fcosts(fields@.subrange(0, i as int)) as int),
            fcosts(fields@.subrange(0, i as int)) <= fcosts(fields@),
            ir_fields@.len() == i,
            forall|k: int| 0 <= k < i ==> value_ok((#[trigger] ir_fields@[k]).1, ctx.next_local),
        decreases fields.len() - i,
    {
        proof {
            lemma_fcosts_prefix(fields@, i as int);
            lemma_fields_lowerable_at(fields@, i as int);
        }
        let f = &fields[i];
        let ghost n0 = ctx.next_local;
        let v = match &f.value {
            Some(e) => {
                assert(decreases_to!(fields => *e)) by {
                    assert(decreases_to!(fields => fields@));
                    assert(decreases_to!(fields@ => fields@[i as int]));
                    assert(decreases_to!(fields@[i as int] => fields@[i as int].value));
                    assert(decreases_to!(fields@[i as int].value => fields@[i as int].value->Some_0));
                }
                lower_expr_val(ctx, e)
            },
            None => Value::Const(Constant::Unit),
        };
        proof {
            assert forall|k: int| 0 <= k < i implies value_ok((#[trigger] ir_fields@[k]).1, ctx.next_local) by {
                lemma_value_mono(ir_fields@[k].1, n0, ctx.next_local);
            }
        }
        ir_fields.push((f.name.clone(), v));
        i = i + 1;
    }
    assert(fields@.subrange(0, i as int) =~= fields@);
    let dst = ctx.fresh_local();
    proof {
        assert forall|k: int| 0 <= k < ir_fields@.len() implies value_ok((#[trigger] ir_fields@[k]).1, ctx.next_local) by {
            lemma_value_mono(ir_fields@[k].1, (ctx.next_local - 1) as u32, ctx.next_local);
        }
    }
    ctx.emit(Instr::NewStruct { dst, name: ty_name, fields: ir_fields });
    Some(dst)
}

proof fn lemma_fcosts_prefix(fs: Seq<FieldInit>, i: int)
    requires
        0 <= i < fs.len(),
    ensures
        fcosts(fs.subrange(0, i + 1)) == fcosts(fs.subrange(0, i)) + 1 + match fs[i].value {
            Some(v) => ecost(v),
            None => 0,
        },
        fcosts(fs.subrange(0, i + 1)) <= fcosts(fs),
    decreases fs.len() - i,
{
    assert(fs.subrange(0, i + 1).drop_last() =~= fs.subrange(0, i));
    if i + 1 < fs.len() {
        lemma_fcosts_prefix(fs, i + 1);
    } else {
        assert(fs.subrange(0, i + 1) =~= fs);
    }
}

proof fn lemma_fields_lowerable_at(fs: Seq<FieldInit>, i: int)
    requires
        0 <= i < fs.len(),
        fields_lowerable(fs),
    ensures
        match fs[i].value {
            Some(v) => lowerable(v),
            None => true,
        },
    decreases fs.len(),
{
    if i < fs.len() - 1 {
        lemma_fields_lowerable_at(fs.drop_last(), i);
    }
}

fn copy_value(v: &Value) -> (r: Value)
    ensures
        r == *v,
{
    match v {
        Value::Local(l) => Value::Local(*l),
        Value::Global(s) => Value::Global(s.clone()),
        Value::Const(c) => Value::Const(
            match c {
                Constant::I32(x) => Constant::I32(*x),
                Constant::I64(x) => Constant::I64(*x),
                Constant::F64(t) => Constant::F64(t.clone()),
                Constant::Bool(b) => Constant::Bool(*b),
                Constant::Str(t) => Constant::Str(t.clone()),
                Constant::NoneVal => Constant::NoneVal,
                Constant::Unit => Constant::Unit,
            },
        ),
    }
}

proof fn lemma_pcosts_prefix(ps: Seq<TemplatePart>, i: int)
    requires
        0 <= i < ps.len(),
    ensures
        pcosts(ps.subrange(0, i + 1)) == pcosts(ps.subrange(0, i)) + 2 + match ps[i] {
            TemplatePart::Expr(x) => ecost(*x),
            TemplatePart::Str(_) => 0,
        },
        pcosts(ps.subrange(0, i + 1)) <= pcosts(ps),
    decreases ps.len() - i,
{
    assert(ps.subrange(0, i + 1).drop_last() =~= ps.subrange(0, i));
    if i + 1 < ps.len() {
        lemma_pcosts_prefix(ps, i + 1);
    } else {
        assert(ps.subrange(0, i + 1) =~= ps);
    }
}

proof fn lemma_parts_lowerable_at(ps: Seq<TemplatePart>, i: int)
    requires
        0 <= i < ps.len(),
        parts_lowerable(ps),
    ensures
        match ps[i] {
            TemplatePart::Expr(x) => lowerable(*x),
            TemplatePart::Str(_) => true,
        },
    decreases ps.len(),
{
    if i < ps.len() - 1 {
        lemma_parts_lowerable_at(ps.drop_last(), i);
    }
}

/// A template literal: its pieces added up left to right.
fn lower_template(ctx: &mut LowerCtx, parts: &Vec<TemplatePart>) -> (r: IrLocal)
    requires
        old(ctx).ok(),
        old(ctx).room(pcosts(parts@) + 10),
        parts_lowerable(parts@),
    ensures
        final(ctx).ok(),
        final(ctx).within(*old(ctx), pcosts(parts@) as int + 1),
        r.0 < final(ctx).next_local,
    decreases parts, 0nat,
{
    let ghost c0 = *ctx;
    let mut pieces: Vec<Value> = Vec::new();
    let mut i: usize = 0;
    while i < parts.len()
        invariant
            ctx.ok(),
            c0.room(pcosts(parts@) + 10),
            parts_lowerable(parts@),
            i <= parts@.len(),
            ctx.within(c0, pcosts(parts@.subrange(0, i as int)) - i),
            pcosts(parts@.subrange(0, i as int)) >= 2 * i,
            pieces@.len() == i,
            vals_ok(pieces@, ctx.next_local),
        decreases parts.len() - i,
    {
        proof {
            lemma_pcosts_prefix(parts@, i as int);
            lemma_parts_lowerable_at(parts@, i as int);
        }
        let ghost n0 = ctx.next_local;
        let ghost before = pieces@;
        let v = match &parts[i] {
            TemplatePart::Str(s) => Value::Const(Constant::Str(s.clone())),
            TemplatePart::Expr(e) => {
                assert(decreases_to!(parts => **e)) by {
                    assert(decreases_to!(parts => parts@));
                    assert(decreases_to!(parts@ => parts@[i as int]));
                    assert(decreases_to!(parts@[i as int] => parts@[i as int]->Expr_0));
                }
                lower_expr_val(ctx, e)
            },
        };
        pieces.push(v);
        proof {
            lemma_vals_mono(before, n0, ctx.next_local);
            assert(pieces@ == before.push(v));
        }
        i = i + 1;
    }
    assert(parts@.subrange(0, i as int) =~= parts@);
    let mut acc = ctx.fresh_local();
    let first = if pieces.len() > 0 {
        copy_value(&pieces[0])
    } else {
        Value::Const(Constant::Str(String::new()))
    };
    proof {
        lemma_vals_mono(pieces@, (ctx.next_local - 1) as u32, ctx.next_local);
    }
    ctx.emit(Instr::Assign { dst: acc, src: first });
    let ghost c1 = *ctx;
    let mut k: usize = 1;
    while k < pieces.len()
        invariant
            ctx.ok(),
            1 <= k <= pieces@.len() || (k == 1 && pieces@.len() == 0),
            c0.room(pcosts(parts@) + 10),
            ctx.within(c1, k - 1),
            c1.within(c0, pcosts(parts@) - pieces@.len() + 1),
            pcosts(parts@) >= 2 * pieces@.len(),
            vals_ok(pieces@, ctx.next_local),
            acc.0 < ctx.next_local,
        decreases pieces.len() - k,
    {
        let next = ctx.fresh_local();
        proof {
            lemma_vals_mono(pieces@, (ctx.next_local - 1) as u32, ctx.next_local);
        }
        let v = copy_value(&pieces[k]);
        ctx.emit(Instr::BinOp { dst: next, op: BinOp::Add, lhs: Value::Local(acc), rhs: v });
        acc = next;
        k = k + 1;
    }
    acc
}

/// The condition that `pat` matches the value in `scrut`.
fn emit_pat_test(ctx: &mut LowerCtx, scrut: IrLocal, pat: &Pattern) -> (v: Value)
    requires
        old(ctx).ok(),
        old(ctx).room(2),
        scrut.0 < old(ctx).next_local,
    ensures
        final(ctx).ok(),
        final(ctx).within(*old(ctx), 2),
        value_ok(v, final(ctx).next_local),
        final(ctx).cur_block == old(ctx).cur_block,
        v == Value::Local(IrLocal(old(ctx).next_local)),
{
    let dst = ctx.fresh_local();
    match &pat.kind {
        PatternKind::Literal(lit) => {
            let k = match lit {
                LitPat::Int(n) => Constant::I32(#[verifier::truncate] (*n as i32)),
                LitPat::Float(f) => Constant::F64(f.clone()),
                LitPat::Bool(b) => Constant::Bool(*b),
                LitPat::Str(s) => Constant::Str(s.clone()),
                LitPat::Char(c) => Constant::I32(*c as i32),
            };
            ctx.emit(Instr::BinOp { dst, op: BinOp::Eq, lhs: Value::Local(scrut), rhs: Value::Const(k) });
        },
        PatternKind::TupleStruct { path, .. } => {
            let n = path.segments.len();
            let is_none = n > 0 && str_eq(path.segments[n - 1].name.as_str(), "None");
            let is_some = n > 0 && str_eq(path.segments[n - 1].name.as_str(), "Some");
            if is_none {
                ctx.emit(Instr::IsNone { dst, val: scrut });
            } else if is_some {
                let tmp = ctx.fresh_local();
                ctx.emit(Instr::IsNone { dst: tmp, val: scrut });
                ctx.emit(Instr::UnOp { dst, op: UnOp::Not, src: Value::Local(tmp) });
            } else {
                ctx.emit(Instr::Assign { dst, src: Value::Const(Constant::Bool(true)) });
            }
        },
        _ => {
            ctx.emit(Instr::Assign { dst, src: Value::Const(Constant::Bool(true)) });
        },
    }
    Value::Local(dst)
}

/// A scope's bindings, names as text.
pub open spec fn frame_view(f: Seq<(String, IrLocal)>) -> Seq<(Seq<char>, IrLocal)> {
    f.map_values(|e: (String, IrLocal)| (e.0@, e.1))
}

/// The bindings a pattern makes against the value in `scrut`, with fresh
/// locals numbered from `next`: a name binds the value itself; a tuple
/// struct unwraps it into a fresh local and binds its first element.
pub open spec fn pat_binds(p: Pattern, scrut: IrLocal, next: int) -> Seq<(Seq<char>, IrLocal)>
    decreases p,
{
    match p.kind {
        PatternKind::Ident { name, .. } => seq![(name@, scrut)],
        PatternKind::TupleStruct { elems, .. } => if elems@.len() > 0 {
            pat_binds(elems@[0], IrLocal(next as u32), next + 1)
        } else {
            seq![]
        },
        _ => seq![],
    }
}

/// How many unwrapped values binding `p` takes.
pub open spec fn pat_unwraps(p: Pattern) -> nat
    decreases p,
{
    match p.kind {
        PatternKind::TupleStruct { elems, .. } => if elems@.len() > 0 {
            1 + pat_unwraps(elems@[0])
        } else {
            0
        },
        _ => 0,
    }
}

/// Binds the names of `pat` against the value in `scrut`.
fn bind_ir_pat(ctx: &mut LowerCtx, scrut: IrLocal, pat: &Pattern)
    requires
        old(ctx).ok(),
        old(ctx).room(pat_cost(*pat)),
        scrut.0 < old(ctx).next_local,
    ensures
        final(ctx).ok(),
        final(ctx).within(*old(ctx), pat_cost(*pat) - 5),
        final(ctx).cur_block == old(ctx).cur_block,
        final(ctx).next_local == old(ctx).next_local + pat_unwraps(*pat),
        final(ctx).scopes@.len() == old(ctx).scopes@.len(),
        frame_view(final(ctx).scopes@.last()@) == frame_view(old(ctx).scopes@.last()@) + pat_binds(*pat, scrut, old(ctx).next_local as int),
        forall|s: int| 0 <= s < old(ctx).scopes@.len() - 1 ==> #[trigger] final(ctx).scopes@[s] == old(ctx).scopes@[s],
    decreases pat,
{
    match &pat.kind {
        PatternKind::Ident { name, .. } => {
            let nm = name.clone();
            ctx.define(nm, scrut);
            assert(frame_view(ctx.scopes@.last()@) =~= frame_view(old(ctx).scopes@.last()@) + pat_binds(*pat, scrut, old(ctx).next_local as int));
        },
        PatternKind::TupleStruct { elems, .. } => {
            if elems.len() > 0 {
                let unwrapped = ctx.fresh_local();
                ctx.emit(Instr::Unwrap { dst: unwrapped, val: scrut });
                assert(decreases_to!(pat => elems@[0])) by {
                    assert(decreases_to!(pat => pat.kind));
                    assert(decreases_to!(pat.kind => pat.kind->TupleStruct_elems));
                    assert(decreases_to!(pat.kind->TupleStruct_elems => pat.kind->TupleStruct_elems@));
                }
                bind_ir_pat(ctx, unwrapped, &elems[0]);
            } else {
                assert(frame_view(ctx.scopes@.last()@) =~= frame_view(old(ctx).scopes@.last()@) + pat_binds(*pat, scrut, old(ctx).next_local as int));
            }
        },
        _ => {
            assert(frame_view(ctx.scopes@.last()@) =~= frame_view(old(ctx).scopes@.last()@) + pat_binds(*pat, scrut, old(ctx).next_local as int));
        },
    }
}

proof fn lemma_arms_prefix(arms: Seq<MatchArm>, i: int)
    requires
        0 <= i < arms.len(),
    ensures
        arms_cost(arms.subrange(0, i + 1)) == arms_cost(arms.subrange(0, i)) + 10 + pat_cost(arms[i].pattern)
            + ecost(*arms[i].body) + match arms[i].guard {
            Some(g) => ecost(*g),
            None => 0,
        },
        arms_cost(arms.subrange(0, i + 1)) <= arms_cost(arms),
    decreases arms.len() - i,
{
    assert(arms.subrange(0, i + 1).drop_last() =~= arms.subrange(0, i));
    if i + 1 < arms.len() {
        lemma_arms_prefix(arms, i + 1);
    } else {
        assert(arms.subrange(0, i + 1) =~= arms);
    }
}

proof fn lemma_arms_lowerable_at(arms: Seq<MatchArm>, i: int)
    requires
        0 <= i < arms.len(),
        arms_lowerable(arms),
    ensures
        lowerable(*arms[i].body),
        match arms[i].guard {
            Some(g) => lowerable(*g),
            None => true,
        },
    decreases arms.len(),
{
    if i < arms.len() - 1 {
        lemma_arms_lowerable_at(arms.drop_last(), i);
    }
}

/// The arms of a `match` on the value in `scrut`: each tests its pattern,
/// binds it, and stores its body's value in one result local.
fn lower_arms(ctx: &mut LowerCtx, scrut: IrLocal, arms: &Vec<MatchArm>) -> (r: IrLocal)
    requires
        old(ctx).ok(),
        old(ctx).room(arms_cost(arms@) + 10),
        arms_lowerable(arms@),
        scrut.0 < old(ctx).next_local,
    ensures
        final(ctx).ok(),
        final(ctx).within(*old(ctx), arms_cost(arms@) as int + 2),
        r.0 < final(ctx).next_local,
        r == IrLocal(old(ctx).next_local),
    decreases arms, 0nat,
{
    let ghost c0 = *ctx;
    let merge_bb = ctx.fresh_block();
    let result = ctx.fresh_local();
    let ghost c1 = *ctx;
    let mut i: usize = 0;
    while i < arms.len()
        invariant
            ctx.ok(),
            c0.room(arms_cost(arms@) + 10),
            c1.within(c0, 2),
            arms_lowerable(arms@),
            i <= arms@.len(),
            ctx.within(c1, arms_cost(arms@.subrange(0, i as int)) as int),
            scrut.0 < ctx.next_local,
            result.0 < ctx.next_local,
            (merge_bb.0 as int) < ctx.next_block,
        decreases arms.len() - i,
    {
        proof {
            lemma_arms_prefix(arms@, i as int);
            lemma_arms_lowerable_at(arms@, i as int);
        }
        let arm = &arms[i];
        assert(decreases_to!(arms => *arm)) by {
            assert(decreases_to!(arms => arms@));
        }
        let body_bb = ctx.fresh_block();
        let next_bb = ctx.fresh_block();
        let cond = emit_pat_test(ctx, scrut, &arm.pattern);
        ctx.set_term(Terminator::Branch { cond, then_bb: body_bb, else_bb: next_bb });
        ctx.switch_to(body_bb);
        ctx.push_scope();
        bind_ir_pat(ctx, scrut, &arm.pattern);
        if let Some(guard) = &arm.guard {
            assert(decreases_to!(arms => **guard)) by {
                assert(decreases_to!(arms => arms@));
                assert(decreases_to!(arms@ => arms@[i as int]));
                assert(decreases_to!(arms@[i as int] => arms@[i as int].guard));
                assert(decreases_to!(arms@[i as int].guard => arms@[i as int].guard->Some_0));
            }
            lower_expr(ctx, guard);
        }
        assert(decreases_to!(arms => *arm.body)) by {
            assert(decreases_to!(arms => arms@));
            assert(decreases_to!(arms@ => arms@[i as int]));
            assert(decreases_to!(arms@[i as int] => arms@[i as int].body));
        }
        let arm_val = lower_expr_val(ctx, &arm.body);
        ctx.emit(Instr::Assign { dst: result, src: arm_val });
        ctx.pop_scope();
        ctx.set_term(Terminator::Jump(merge_bb));
        ctx.switch_to(next_bb);
        i = i + 1;
    }
    assert(arms@.subrange(0, i as int) =~= arms@);
    ctx.set_term(Terminator::Jump(merge_bb));
    ctx.switch_to(merge_bb);
    result
}

proof fn lemma_scosts_prefix(ss: Seq<Stmt>, i: int)
    requires
        0 <= i < ss.len(),
    ensures
        scosts(ss.subrange(0, i + 1)) == scosts(ss.subrange(0, i)) + 10 + match ss[i] {
            Stmt::Let(l) => match l.init {
                Some(x) => ecost(x),
                None => 0,
            },
            Stmt::Expr(x, _) => ecost(x),
            Stmt::Item(_) => 0,
        },
        scosts(ss.subrange(0, i + 1)) <= scosts(ss),
    decreases ss.len() - i,
{
    assert(ss.subrange(0, i + 1).drop_last() =~= ss.subrange(0, i));
    if i + 1 < ss.len() {
        lemma_scosts_prefix(ss, i + 1);
    } else {
        assert(ss.subrange(0, i + 1) =~= ss);
    }
}

proof fn lemma_stmts_lowerable_at(ss: Seq<Stmt>, i: int)
    requires
        0 <= i < ss.len(),
        stmts_lowerable(ss),
    ensures
        match ss[i] {
            Stmt::Let(l) => match l.init {
                Some(x) => lowerable(x),
                None => true,
            },
            Stmt::Expr(x, _) => lowerable(x),
            Stmt::Item(_) => true,
        },
    decreases ss.len(),
{
    if i < ss.len() - 1 {
        lemma_stmts_lowerable_at(ss.drop_last(), i);
    }
}

/// How many `let` statements `ss` holds.
pub open spec fn let_count(ss: Seq<Stmt>) -> nat
    decreases ss.len(),
{
    if ss.len() == 0 {
        0
    } else {
        let_count(ss.drop_last()) + if ss.last() is Let {
            1nat
        } else {
            0nat
        }
    }
}

/// A block in a scope of its own: its statements, then its tail; each
/// `let` takes a fresh local.
fn lower_block(ctx: &mut LowerCtx, block: &Block)
    requires
        old(ctx).ok(),
        old(ctx).room(bcost(*block)),
        block_lowerable(*block),
    ensures
        final(ctx).ok(),
        final(ctx).within(*old(ctx), bcost(*block) - 2),
        final(ctx).next_local >= old(ctx).next_local + let_count(block.stmts@),
    decreases block, 0nat,
{
    let ghost c0 = *ctx;
    ctx.push_scope();
    let ghost c1 = *ctx;
    let mut i: usize = 0;
    while i < block.stmts.len()
        invariant
            ctx.ok(),
            c0.room(bcost(*block)),
            block_lowerable(*block),
            c1.scopes@.len() == c0.scopes@.len() + 1,
            c1.next_local == c0.next_local && c1.next_block == c0.next_block,
            c1.fns@ == c0.fns@ && c1.globals@ == c0.globals@,
            i <= block.stmts@.len(),
            ctx.within(c1, scosts(block.stmts@.subrange(0, i as int)) as int),
            ctx.next_local >= c1.next_local + let_count(block.stmts@.subrange(0, i as int)),
        decreases block.stmts.len() - i,
    {
        assert(block.stmts@.subrange(0, i + 1).drop_last() =~= block.stmts@.subrange(0, i as int));
        proof {
            lemma_scosts_prefix(block.stmts@, i as int);
            lemma_stmts_lowerable_at(block.stmts@, i as int);
        }
        assert(decreases_to!(block => block.stmts@[i as int])) by {
            assert(decreases_to!(block => block.stmts));
            assert(decreases_to!(block.stmts => block.stmts@));
        }
        match &block.stmts[i] {
            Stmt::Let(ls) => {
                let dst = ctx.fresh_local();
                if let PatternKind::Ident { name, .. } = &ls.pattern.kind {
                    ctx.define(name.clone(), dst);
                }
                if let Some(init) = &ls.init {
                    assert(decreases_to!(block => *init)) by {
                        assert(decreases_to!(block.stmts@[i as int] => block.stmts@[i as int]->Let_0));
                        assert(decreases_to!(block.stmts@[i as int]->Let_0 => block.stmts@[i as int]->Let_0.init));
                        assert(decreases_to!(block.stmts@[i as int]->Let_0.init => block.stmts@[i as int]->Let_0.init->Some_0));
                    }
                    let src = lower_expr_val(ctx, init);
                    ctx.emit(Instr::Assign { dst, src });
                }
            },
            Stmt::Expr(e, _) => {
                assert(decreases_to!(block => *e)) by {
                    assert(decreases_to!(block.stmts@[i as int] => block.stmts@[i as int]->Expr_0));
                }
                lower_expr(ctx, e);
            },
            Stmt::Item(_) => {},
        }
        i = i + 1;
    }
    assert(block.stmts@.subrange(0, i as int) =~= block.stmts@);
    if let Some(tail) = &block.tail {
        assert(decreases_to!(block => **tail)) by {
            assert(decreases_to!(block => block.tail));
            assert(decreases_to!(block.tail => block.tail->Some_0));
        }
        lower_expr(ctx, tail);
    }
    ctx.pop_scope();
}

// ── Functions, constants, modules ────────────────────────────────────────────

/// A function whose body lowering can handle, within the `u32` counters.
pub open spec fn fn_lowerable(f: FnDef) -> bool {
    &&& block_lowerable(f.body)
    &&& f.params@.len() + bcost(f.body) + 1 <= u32::MAX
}

/// Every function of an item that lowering visits can be lowered.
pub open spec fn item_lowerable(item: Item) -> bool {
    match item {
        Item::FnDef(f) => fn_lowerable(f),
        Item::ImplBlock(imp) => forall|k: int|
            0 <= k < imp.items@.len() ==> (#[trigger] imp.items@[k] matches ImplItem::Fn(f) ==> fn_lowerable(f)),
        _ => true,
    }
}

/// The attribute names of a function, in order.
fn attr_names(f: &FnDef) -> (names: Vec<String>)
    ensures
        names@.len() == f.attrs@.len(),
{
    let mut names: Vec<String> = Vec::new();
    let mut i: usize = 0;
    while i < f.attrs.len()
        invariant
            i <= f.attrs@.len(),
            names@.len() == i,
        decreases f.attrs.len() - i,
    {
        names.push(f.attrs[i].name.clone());
        i = i + 1;
    }
    names
}

/// Lowers one function under `name` and adds it to the finished ones.
fn lower_fn(ctx: &mut LowerCtx, f: &FnDef, name: String)
    requires
        fn_lowerable(*f),
        forall|i: int| 0 <= i < old(ctx).fns@.len() ==> ir_fn_wf(#[trigger] old(ctx).fns@[i]),
    ensures
        final(ctx).fns@.len() == old(ctx).fns@.len() + 1,
        final(ctx).fns@.drop_last() == old(ctx).fns@,
        forall|i: int| 0 <= i < final(ctx).fns@.len() ==> ir_fn_wf(#[trigger] final(ctx).fns@[i]),
        final(ctx).fns@.last().name@ == name@,
        final(ctx).globals@ == old(ctx).globals@,
{
    ctx.begin_fn();
    let ghost c0 = *ctx;
    let mut params: Vec<IrLocal> = Vec::new();
    let mut i: usize = 0;
    while i < f.params.len()
        invariant
            ctx.ok(),
            fn_lowerable(*f),
            i <= f.params@.len(),
            ctx.next_local == i,
            ctx.next_block == 1,
            ctx.scopes@.len() == 1,
            ctx.fns@ == c0.fns@,
            ctx.globals@ == c0.globals@,
            params@.len() == i,
            forall|k: int| 0 <= k < i ==> (#[trigger] params@[k]).0 < ctx.next_local,
        decreases f.params.len() - i,
    {
        let local = ctx.fresh_local();
        params.push(local);
        ctx.define(f.params[i].name.clone(), local);
        i = i + 1;
    }
    let ghost c1 = *ctx;
    lower_block(ctx, &f.body);
    if ctx.cur_unterminated() {
        ctx.set_term(Terminator::Return(None));
    }
    let num_locals = ctx.next_local;
    let attrs = attr_names(f);
    let mut blocks: Vec<BasicBlock> = Vec::new();
    std::mem::swap(&mut blocks, &mut ctx.blocks);
    let irf = IrFn {
        name,
        params,
        ret_ty: IrType::Any,
        blocks,
        num_locals,
        is_async: f.is_async,
        is_export: match f.vis {
            Visibility::Public => true,
            Visibility::Private => false,
        },
        attrs,
        target: Target::Auto,
    };
    proof {
        assert(ir_fn_wf(irf));
    }
    ctx.fns.push(irf);
}

/// The name methods of an impl block are prefixed with.
pub open spec fn impl_type_name(imp: ImplBlock) -> Seq<char> {
    match imp.self_ty {
        Type::Named { name, .. } => name@,
        _ => "_"@,
    }
}

/// The names the methods among `items` are lowered under, in order.
pub open spec fn method_names(items: Seq<ImplItem>, ty: Seq<char>) -> Seq<Seq<char>>
    decreases items.len(),
{
    if items.len() == 0 {
        seq![]
    } else {
        method_names(items.drop_last(), ty) + match items.last() {
            ImplItem::Fn(f) => seq![ty + "::"@ + f.name@],
            _ => Seq::<Seq<char>>::empty(),
        }
    }
}

fn lower_impl(ctx: &mut LowerCtx, imp: &ImplBlock)
    requires
        item_lowerable(Item::ImplBlock(*imp)),
        forall|i: int| 0 <= i < old(ctx).fns@.len() ==> ir_fn_wf(#[trigger] old(ctx).fns@[i]),
    ensures
        forall|i: int| 0 <= i < final(ctx).fns@.len() ==> ir_fn_wf(#[trigger] final(ctx).fns@[i]),
        final(ctx).globals@ == old(ctx).globals@,
        final(ctx).fns@.subrange(0, old(ctx).fns@.len() as int) == old(ctx).fns@,
        final(ctx).fns@.subrange(old(ctx).fns@.len() as int, final(ctx).fns@.len() as int).map_values(|g: IrFn| g.name@)
            == method_names(imp.items@, impl_type_name(*imp)),
{
    let ty_name = match &imp.self_ty {
        Type::Named { name, .. } => name.clone(),
        _ => string_of("_"),
    };
    let ghost n0 = ctx.fns@.len() as int;
    let ghost tn = impl_type_name(*imp);
    assert(ty_name@ == tn);
    let mut k: usize = 0;
    assert(ctx.fns@.subrange(n0, ctx.fns@.len() as int).map_values(|g: IrFn| g.name@) =~= method_names(imp.items@.subrange(0, 0), tn));
    while k < imp.items.len()
        invariant
            item_lowerable(Item::ImplBlock(*imp)),
            k <= imp.items@.len(),
            forall|i: int| 0 <= i < ctx.fns@.len() ==> ir_fn_wf(#[trigger] ctx.fns@[i]),
            ctx.globals@ == old(ctx).globals@,
            n0 == old(ctx).fns@.len(),
            n0 <= ctx.fns@.len(),
            ty_name@ == tn,
            ctx.fns@.subrange(0, n0) == old(ctx).fns@,
            ctx.fns@.subrange(n0, ctx.fns@.len() as int).map_values(|g: IrFn| g.name@) == method_names(imp.items@.subrange(0, k as int), tn),
        decreases imp.items.len() - k,
    {
        let ghost before = ctx.fns@;
        proof {
            let sub = imp.items@.subrange(0, k + 1);
            assert(sub.drop_last() =~= imp.items@.subrange(0, k as int));
            assert(sub.last() == imp.items@[k as int]);
        }
        if let ImplItem::Fn(f) = &imp.items[k] {
            // Methods are named `TypeName::method`.
            let mut name = ty_name.clone();
            push_str(&mut name, "::");
            push_str(&mut name, f.name.as_str());
            assert(imp.items@[k as int] matches ImplItem::Fn(g) ==> fn_lowerable(g));
            let ghost nm = name@;
            lower_fn(ctx, f, name);
            proof {
                assert(ctx.fns@.subrange(0, n0) =~= before.subrange(0, n0));
                assert(ctx.fns@.subrange(n0, ctx.fns@.len() as int) =~= before.subrange(n0, before.len() as int).push(ctx.fns@.last()));
                assert(nm == tn + "::"@ + f.name@);
                assert(ctx.fns@.subrange(n0, ctx.fns@.len() as int).map_values(|g: IrFn| g.name@)
                    =~= before.subrange(n0, before.len() as int).map_values(|g: IrFn| g.name@).push(nm));
            }
        }
        k = k + 1;
    }
    assert(imp.items@.subrange(0, k as int) =~= imp.items@);
}

/// The constant a literal initializer denotes: its value, with integers
/// cut to 32 bits and floats kept as their text.
pub open spec fn const_of(e: Expr, k: Constant) -> bool {
    match e.kind {
        ExprKind::IntLit(n) => k matches Constant::I32(v) && (i32::MIN <= n <= i32::MAX ==> v == n),
        ExprKind::FloatLit(f) => k matches Constant::F64(t) && t@ == f@,
        ExprKind::BoolLit(b) => k == Constant::Bool(b),
        ExprKind::StrLit(x) => k matches Constant::Str(t) && t@ == x@,
        _ => false,
    }
}

/// The constant an initializer denotes, when it is a literal.
fn expr_to_const(expr: &Expr) -> (r: Option<Constant>)
    ensures
        r is Some <==> (expr.kind is IntLit || expr.kind is FloatLit || expr.kind is BoolLit || expr.kind is StrLit),
        r matches Some(k) ==> const_of(*expr, k),
{
    match &expr.kind {
        ExprKind::IntLit(n) => Some(Constant::I32(#[verifier::truncate] (*n as i32))),
        ExprKind::FloatLit(f) => Some(Constant::F64(f.clone())),
        ExprKind::BoolLit(b) => Some(Constant::Bool(*b)),
        ExprKind::StrLit(s) => Some(Constant::Str(s.clone())),
        _ => None,
    }
}

fn lower_const(ctx: &mut LowerCtx, c: &ConstItem)
    ensures
        final(ctx).fns@ == old(ctx).fns@,
        final(ctx).globals@.len() <= old(ctx).globals@.len() + 1,
        !(c.value.kind is IntLit || c.value.kind is FloatLit || c.value.kind is BoolLit || c.value.kind is StrLit)
            ==> final(ctx).globals@ == old(ctx).globals@,
        (c.value.kind is IntLit || c.value.kind is FloatLit || c.value.kind is BoolLit || c.value.kind is StrLit) ==> {
            &&& final(ctx).globals@.len() == old(ctx).globals@.len() + 1
            &&& final(ctx).globals@.drop_last() == old(ctx).globals@
            &&& final(ctx).globals@.last().name@ == c.name@
            &&& const_of(c.value, final(ctx).globals@.last().init)
            &&& final(ctx).globals@.last().ty == match final(ctx).globals@.last().init {
                Constant::I32(_) => IrType::I32,
                Constant::I64(_) => IrType::I64,
                Constant::F64(_) => IrType::F64,
                Constant::Bool(_) => IrType::Bool,
                Constant::Str(_) => IrType::Str,
                Constant::NoneVal | Constant::Unit => IrType::Any,
            }
        },
{
    if let Some(k) = expr_to_const(&c.value) {
        let ty = k.ty();
        ctx.globals.push(IrGlobal { name: c.name.clone(), ty, init: k });
        assert(ctx.globals@.drop_last() =~= old(ctx).globals@);
    }
}

/// Lowers a module: its functions, the methods of its impl blocks (named
/// `Type::method`) and its literal constants.  Every function comes out
/// well formed.
pub fn lower_module(module: &Module) -> (ir: IrModule)
    requires
        forall|i: int| 0 <= i < module.items@.len() ==> item_lowerable(#[trigger] module.items@[i]),
    ensures
        ir.name@ == "main"@,
        forall|i: int| 0 <= i < ir.fns@.len() ==> ir_fn_wf(#[trigger] ir.fns@[i]),
{
    let mut ctx = LowerCtx {
        fns: Vec::new(),
        globals: Vec::new(),
        blocks: Vec::new(),
        cur_block: 0,
        next_local: 0,
        next_block: 0,
        scopes: Vec::new(),
    };
    let mut i: usize = 0;
    while i < module.items.len()
        invariant
            i <= module.items@.len(),
            forall|k: int| 0 <= k < module.items@.len() ==> item_lowerable(#[trigger] module.items@[k]),
            forall|k: int| 0 <= k < ctx.fns@.len() ==> ir_fn_wf(#[trigger] ctx.fns@[k]),
        decreases module.items.len() - i,
    {
        assert(item_lowerable(module.items@[i as int]));
        match &module.items[i] {
            Item::FnDef(f) => lower_fn(&mut ctx, f, f.name.clone()),
            Item::ImplBlock(imp) => lower_impl(&mut ctx, imp),
            Item::Const(c) => lower_const(&mut ctx, c),
            _ => {},
        }
        i = i + 1;
    }
    IrModule { name: string_of("main"), fns: ctx.fns, globals: ctx.globals }
}

// ── Checking what lowering can take ──────────────────────────────────────────

/// The largest budget the `u32` counters allow.
pub open spec fn limit() -> int {
    u32::MAX as int
}

/// `a + b + k`, or `None` past the limit.
fn add_budget(a: Option<u64>, b: Option<u64>, k: u64) -> (r: Option<u64>)
    requires
        k <= 100,
    ensures
        match (a, b) {
            (Some(x), Some(y)) => if x + y + k <= limit() {
                r == Some((x + y + k) as u64)
            } else {
                r is None
            },
            _ => r is None,
        },
{
    match (a, b) {
        (Some(x), Some(y)) => {
            if x <= 0xFFFF_FFFFu64 && y <= 0xFFFF_FFFFu64 && x + y + k <= 0xFFFF_FFFFu64 {
                Some(x + y + k)
            } else {
                None
            }
        },
        _ => None,
    }
}

/// The budget lowering `e` needs, when it can be lowered within the limit.
pub fn expr_budget(e: &Expr) -> (r: Option<u64>)
    ensures
        match r {
            Some(c) => lowerable(*e) && ecost(*e) == c as int && c as int <= limit(),
            None => !lowerable(*e) || ecost(*e) > limit(),
        },
    decreases e, 1nat,
{
    assert(decreases_to!(e => e.kind));
    let z: Option<u64> = Some(0);
    match &e.kind {
        ExprKind::Closure { .. } => None,
        ExprKind::Unary { expr, .. } => add_budget(expr_budget(expr), z, 10),
        ExprKind::Binary { lhs, rhs, .. } => add_budget(expr_budget(lhs), expr_budget(rhs), 10),
        ExprKind::Assign { target, rhs } => add_budget(expr_budget(target), expr_budget(rhs), 10),
        ExprKind::CompoundAssign { target, rhs, .. } => add_budget(expr_budget(target), expr_budget(rhs), 10),
        ExprKind::If { cond, then, else_ } => {
            let c = add_budget(expr_budget(cond), block_budget(then), 0);
            let el = match else_ {
                Some(x) => {
                    assert(decreases_to!(e.kind => e.kind->If_else_));
                    expr_budget(x)
                },
                None => z,
            };
            add_budget(c, el, 10)
        },
        ExprKind::Match { scrutinee, arms } => {
            assert(decreases_to!(e.kind => e.kind->Match_arms));
            add_budget(expr_budget(scrutinee), arms_budget(arms), 10)
        },
        ExprKind::Loop(b) => add_budget(block_budget(b), z, 10),
        ExprKind::While { cond, body } => add_budget(expr_budget(cond), block_budget(body), 10),
        ExprKind::For { iter, body, .. } => add_budget(expr_budget(iter), block_budget(body), 10),
        ExprKind::Return { value } => match value {
            Some(x) => {
                assert(decreases_to!(e.kind => e.kind->Return_value));
                add_budget(expr_budget(x), z, 10)
            },
            None => Some(10),
        },
        ExprKind::Call { callee, args } => {
            assert(decreases_to!(e.kind => e.kind->Call_args));
            add_budget(expr_budget(callee), exprs_budget(args), 10)
        },
        ExprKind::MethodCall { receiver, args, .. } => {
            assert(decreases_to!(e.kind => e.kind->MethodCall_args));
            add_budget(expr_budget(receiver), exprs_budget(args), 10)
        },
        ExprKind::Field { base, .. } => add_budget(expr_budget(base), z, 10),
        ExprKind::Index { base, index } => add_budget(expr_budget(base), expr_budget(index), 10),
        ExprKind::StructLit { fields, .. } => {
            assert(decreases_to!(e.kind => e.kind->StructLit_fields));
            add_budget(fields_budget(fields), z, 10)
        },
        ExprKind::TupleLit(es) => {
            assert(decreases_to!(e.kind => e.kind->TupleLit_0));
            add_budget(exprs_budget(es), z, 10)
        },
        ExprKind::ArrayLit(es) => {
            assert(decreases_to!(e.kind => e.kind->ArrayLit_0));
            add_budget(exprs_budget(es), z, 10)
        },
        ExprKind::ArrayRepeat { elem, len } => add_budget(expr_budget(elem), expr_budget(len), 10),
        ExprKind::TemplateLit { parts } => {
            assert(decreases_to!(e.kind => e.kind->TemplateLit_parts));
            add_budget(parts_budget(parts), z, 10)
        },
        ExprKind::Await(x) => add_budget(expr_budget(x), z, 10),
        ExprKind::Cast { expr, .. } => add_budget(expr_budget(expr), z, 10),
        ExprKind::Block(b) => add_budget(block_budget(b), z, 10),
        _ => Some(10),
    }
}

fn exprs_budget(xs: &Vec<Expr>) -> (r: Option<u64>)
    ensures
        match r {
            Some(c) => all_lowerable(xs@) && ecosts(xs@) == c as int && c as int <= limit(),
            None => !all_lowerable(xs@) || ecosts(xs@) > limit(),
        },
    decreases xs, 0nat,
{
    let mut acc: Option<u64> = Some(0);
    let mut i: usize = 0;
    while i < xs.len()
        invariant
            i <= xs@.len(),
            match acc {
                Some(c) => all_lowerable(xs@.subrange(0, i as int)) && ecosts(xs@.subrange(0, i as int)) == c as int && c as int <= limit(),
                None => false,
            },
        decreases xs.len() - i,
    {
        let ghost sub = xs@.subrange(0, i + 1);
        assert(sub.drop_last() =~= xs@.subrange(0, i as int));
        proof {
            lemma_ecosts_prefix(xs@, i as int);
        }
        assert(decreases_to!(xs => xs@[i as int])) by {
            assert(decreases_to!(xs => xs@));
        }
        let b = expr_budget(&xs[i]);
        let next = add_budget(acc, b, 0);
        if next.is_none() {
            proof {
                if all_lowerable(xs@) {
                    lemma_lowerable_at(xs@, i as int);
                }
            }
            return None;
        }
        acc = next;
        i = i + 1;
    }
    assert(xs@.subrange(0, i as int) =~= xs@);
    acc
}

fn fields_budget(xs: &Vec<FieldInit>) -> (r: Option<u64>)
    ensures
        match r {
            Some(c) => fields_lowerable(xs@) && fcosts(xs@) == c as int && c as int <= limit(),
            None => !fields_lowerable(xs@) || fcosts(xs@) > limit(),
        },
    decreases xs, 0nat,
{
    let mut acc: Option<u64> = Some(0);
    let mut i: usize = 0;
    while i < xs.len()
        invariant
            i <= xs@.len(),
            match acc {
                Some(c) => fields_lowerable(xs@.subrange(0, i as int)) && fcosts(xs@.subrange(0, i as int)) == c as int && c as int <= limit(),
                None => false,
            },
        decreases xs.len() - i,
    {
        let ghost sub = xs@.subrange(0, i + 1);
        assert(sub.drop_last() =~= xs@.subrange(0, i as int));
        proof {
            lemma_fcosts_prefix(xs@, i as int);
        }
        let x = &xs[i];
        assert(decreases_to!(xs => *x)) by {
            assert(decreases_to!(xs => xs@));
        }
        let b: Option<u64> = match &x.value {
            Some(v) => {
                assert(decreases_to!(*x => x.value));
                expr_budget(v)
            },
            None => Some(0),
        };
        let next = add_budget(acc, b, 1);
        if next.is_none() {
            proof {
                if fields_lowerable(xs@) {
                    lemma_fields_lowerable_at(xs@, i as int);
                }
            }
            return None;
        }
        acc = next;
        i = i + 1;
    }
    assert(xs@.subrange(0, i as int) =~= xs@);
    acc
}

fn parts_budget(xs: &Vec<TemplatePart>) -> (r: Option<u64>)
    ensures
        match r {
            Some(c) => parts_lowerable(xs@) && pcosts(xs@) == c as int && c as int <= limit(),
            None => !parts_lowerable(xs@) || pcosts(xs@) > limit(),
        },
    decreases xs, 0nat,
{
    let mut acc: Option<u64> = Some(0);
    let mut i: usize = 0;
    while i < xs.len()
        invariant
            i <= xs@.len(),
            match acc {
                Some(c) => parts_lowerable(xs@.subrange(0, i as int)) && pcosts(xs@.subrange(0, i as int)) == c as int && c as int <= limit(),
                None => false,
            },
        decreases xs.len() - i,
    {
        let ghost sub = xs@.subrange(0, i + 1);
        assert(sub.drop_last() =~= xs@.subrange(0, i as int));
        proof {
            lemma_pcosts_prefix(xs@, i as int);
        }
        let x = &xs[i];
        assert(decreases_to!(xs => *x)) by {
            assert(decreases_to!(xs => xs@));
        }
        let b: Option<u64> = match x {
            TemplatePart::Expr(v) => expr_budget(v),
            TemplatePart::Str(_) => Some(0),
        };
        let next = add_budget(acc, b, 2);
        if next.is_none() {
            proof {
                if parts_lowerable(xs@) {
                    lemma_parts_lowerable_at(xs@, i as int);
                }
            }
            return None;
        }
        acc = next;
        i = i + 1;
    }
    assert(xs@.subrange(0, i as int) =~= xs@);
    acc
}

fn arms_budget(xs: &Vec<MatchArm>) -> (r: Option<u64>)
    ensures
        match r {
            Some(c) => arms_lowerable(xs@) && arms_cost(xs@) == c as int && c as int <= limit(),
            None => !arms_lowerable(xs@) || arms_cost(xs@) > limit(),
        },
    decreases xs, 0nat,
{
    let mut acc: Option<u64> = Some(0);
    let mut i: usize = 0;
    while i < xs.len()
        invariant
            i <= xs@.len(),
            match acc {
                Some(c) => arms_lowerable(xs@.subrange(0, i as int)) && arms_cost(xs@.subrange(0, i as int)) == c as int && c as int <= limit(),
                None => false,
            },
        decreases xs.len() - i,
    {
        let ghost sub = xs@.subrange(0, i + 1);
        assert(sub.drop_last() =~= xs@.subrange(0, i as int));
        proof {
            lemma_arms_prefix(xs@, i as int);
        }
        let x = &xs[i];
        assert(decreases_to!(xs => *x)) by {
            assert(decreases_to!(xs => xs@));
        }
        let g: Option<u64> = match &x.guard {
            Some(v) => {
                assert(decreases_to!(*x => x.guard));
                expr_budget(v)
            },
            None => Some(0),
        };
        let b0 = add_budget(pat_budget(&x.pattern), g, 0);
        let b = add_budget(b0, expr_budget(&x.body), 0);
        let next = add_budget(acc, b, 10);
        if next.is_none() {
            proof {
                if arms_lowerable(xs@) {
                    lemma_arms_lowerable_at(xs@, i as int);
                }
            }
            return None;
        }
        acc = next;
        i = i + 1;
    }
    assert(xs@.subrange(0, i as int) =~= xs@);
    acc
}

fn stmts_budget(xs: &Vec<Stmt>) -> (r: Option<u64>)
    ensures
        match r {
            Some(c) => stmts_lowerable(xs@) && scosts(xs@) == c as int && c as int <= limit(),
            None => !stmts_lowerable(xs@) || scosts(xs@) > limit(),
        },
    decreases xs, 0nat,
{
    let mut acc: Option<u64> = Some(0);
    let mut i: usize = 0;
    while i < xs.len()
        invariant
            i <= xs@.len(),
            match acc {
                Some(c) => stmts_lowerable(xs@.subrange(0, i as int)) && scosts(xs@.subrange(0, i as int)) == c as int && c as int <= limit(),
                None => false,
            },
        decreases xs.len() - i,
    {
        let ghost sub = xs@.subrange(0, i + 1);
        assert(sub.drop_last() =~= xs@.subrange(0, i as int));
        proof {
            lemma_scosts_prefix(xs@, i as int);
        }
        let x = &xs[i];
        assert(decreases_to!(xs => *x)) by {
            assert(decreases_to!(xs => xs@));
        }
        let b: Option<u64> = match x {
            Stmt::Let(l) => match &l.init {
                Some(v) => {
                    assert(decreases_to!(*x => x->Let_0));
                    assert(decreases_to!(x->Let_0 => x->Let_0.init));
                    expr_budget(v)
                },
                None => Some(0),
            },
            Stmt::Expr(v, _) => expr_budget(v),
            Stmt::Item(_) => Some(0),
        };
        let next = add_budget(acc, b, 10);
        if next.is_none() {
            proof {
                if stmts_lowerable(xs@) {
                    lemma_stmts_lowerable_at(xs@, i as int);
                }
            }
            return None;
        }
        acc = next;
        i = i + 1;
    }
    assert(xs@.subrange(0, i as int) =~= xs@);
    acc
}

fn pat_budget(p: &Pattern) -> (r: Option<u64>)
    ensures
        match r {
            Some(c) => pat_cost(*p) == c as int && c as int <= limit(),
            None => pat_cost(*p) > limit(),
        },
    decreases p,
{
    match &p.kind {
        PatternKind::TupleStruct { elems, .. } => {
            if elems.len() > 0 {
                assert(decreases_to!(*p => elems@[0])) by {
                    assert(decreases_to!(*p => p.kind));
                    assert(decreases_to!(p.kind => p.kind->TupleStruct_elems));
                    assert(decreases_to!(p.kind->TupleStruct_elems => p.kind->TupleStruct_elems@));
                }
                add_budget(pat_budget(&elems[0]), Some(0), 5)
            } else {
                Some(5)
            }
        },
        _ => Some(5),
    }
}

fn block_budget(b: &Block) -> (r: Option<u64>)
    ensures
        match r {
            Some(c) => block_lowerable(*b) && bcost(*b) == c as int && c as int <= limit(),
            None => !block_lowerable(*b) || bcost(*b) > limit(),
        },
    decreases b, 1nat,
{
    assert(decreases_to!(b => b.stmts));
    let t: Option<u64> = match &b.tail {
        Some(x) => {
            assert(decreases_to!(b => b.tail));
            expr_budget(x)
        },
        None => Some(0),
    };
    add_budget(stmts_budget(&b.stmts), t, 10)
}

/// Whether `lower_module` can take `module`: no closure where lowering
/// reaches, and every function within the `u32` counters.
pub fn module_lowerable(module: &Module) -> (b: bool)
    ensures
        b == forall|i: int| 0 <= i < module.items@.len() ==> item_lowerable(#[trigger] module.items@[i]),
{
    let mut i: usize = 0;
    while i < module.items.len()
        invariant
            i <= module.items@.len(),
            forall|k: int| 0 <= k < i ==> item_lowerable(#[trigger] module.items@[k]),
        decreases module.items.len() - i,
    {
        let ok = match &module.items[i] {
            Item::FnDef(f) => fn_budget_ok(f),
            Item::ImplBlock(imp) => {
                let mut all = true;
                let mut k: usize = 0;
                while k < imp.items.len()
                    invariant
                        k <= imp.items@.len(),
                        all == forall|j: int| 0 <= j < k ==> (#[trigger] imp.items@[j] matches ImplItem::Fn(f) ==> fn_lowerable(f)),
                    decreases imp.items.len() - k,
                {
                    if let ImplItem::Fn(f) = &imp.items[k] {
                        if !fn_budget_ok(f) {
                            all = false;
                        }
                    }
                    k = k + 1;
                }
                all
            },
            _ => true,
        };
        if !ok {
            return false;
        }
        i = i + 1;
    }
    true
}

fn fn_budget_ok(f: &FnDef) -> (b: bool)
    ensures
        b == fn_lowerable(*f),
{
    match block_budget(&f.body) {
        Some(c) => c < 0xFFFF_FFFFu64 && (f.params.len() as u64) <= 0xFFFF_FFFFu64 - 1 - c,
        None => false,
    }
}

} // verus!
