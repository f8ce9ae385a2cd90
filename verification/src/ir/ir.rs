//! IR type definitions.

use vstd::prelude::*;

verus! {

// ── Identifiers ──────────────────────────────────────────────────────────────

/// A numbered local register within a function.
#[derive(Debug, Clone, Copy, PartialEq, Eq, Hash, Structural)]
pub struct IrLocal(pub u32);

/// A basic block label within a function.
#[derive(Debug, Clone, Copy, PartialEq, Eq, Hash, Structural)]
pub struct BlockId(pub u32);

// ── Type tags ────────────────────────────────────────────────────────────────

#[derive(Debug, PartialEq)]
pub enum IrType {
    I32,
    I64,
    F64,
    Bool,
    Str,
    Void,
    /// Heap-allocated object.
    Ref(Box<IrType>),
    /// Union / erased type.
    Any,
}

// ── Constants ────────────────────────────────────────────────────────────────

#[derive(Debug, Clone, PartialEq)]
pub enum Constant {
    I32(i32),
    I64(i64),
    /// A floating-point constant, by its literal text.
    F64(String),
    Bool(bool),
    Str(String),
    /// The `None` sentinel.
    NoneVal,
    Unit,
}

impl Constant {
    pub fn ty(&self) -> (t: IrType)
        ensures
            t == match self {
                Constant::I32(_) => IrType::I32,
                Constant::I64(_) => IrType::I64,
                Constant::F64(_) => IrType::F64,
                Constant::Bool(_) => IrType::Bool,
                Constant::Str(_) => IrType::Str,
                Constant::NoneVal | Constant::Unit => IrType::Any,
            },
    {
        match self {
            Constant::I32(_) => IrType::I32,
            Constant::I64(_) => IrType::I64,
            Constant::F64(_) => IrType::F64,
            Constant::Bool(_) => IrType::Bool,
            Constant::Str(_) => IrType::Str,
            Constant::NoneVal | Constant::Unit => IrType::Any,
        }
    }
}

// ── Operands ─────────────────────────────────────────────────────────────────

#[derive(Debug, Clone)]
pub enum Value {
    Local(IrLocal),
    Const(Constant),
    /// Reference to a top-level function or global.
    Global(String),
}

// ── Operators ────────────────────────────────────────────────────────────────

#[derive(Debug, Clone, Copy, PartialEq, Eq, Structural)]
pub enum BinOp {
    Add,
    Sub,
    Mul,
    Div,
    Rem,
    Eq,
    Ne,
    Lt,
    Le,
    Gt,
    Ge,
    And,
    Or,
    BitAnd,
    BitOr,
    BitXor,
    Shl,
    Shr,
}

#[derive(Debug, Clone, Copy, PartialEq, Eq, Structural)]
pub enum UnOp {
    Neg,
    Not,
}

// ── Instructions ─────────────────────────────────────────────────────────────

#[derive(Debug, Clone)]
pub enum Instr {
    /// `dst = src`
    Assign { dst: IrLocal, src: Value },
    /// `dst = lhs op rhs`
    BinOp { dst: IrLocal, op: BinOp, lhs: Value, rhs: Value },
    /// `dst = op src`
    UnOp { dst: IrLocal, op: UnOp, src: Value },
    /// `dst = func(args)`; `dst` is `None` for void calls.
    Call { dst: Option<IrLocal>, func: Value, args: Vec<Value> },
    /// `dst = new StructName { field: val, ... }`
    NewStruct { dst: IrLocal, name: String, fields: Vec<(String, Value)> },
    /// `dst = base.field`
    GetField { dst: IrLocal, base: IrLocal, field: String },
    /// `base.field = val`
    SetField { base: IrLocal, field: String, val: Value },
    /// `dst = [elems...]`
    NewArray { dst: IrLocal, elems: Vec<Value> },
    /// `dst = array[idx]`
    ArrayGet { dst: IrLocal, array: IrLocal, idx: Value },
    /// `array[idx] = val`
    ArraySet { array: IrLocal, idx: Value, val: Value },
    /// `dst = Some(val)`
    WrapSome { dst: IrLocal, val: Value },
    /// `dst = Ok(val)`
    WrapOk { dst: IrLocal, val: Value },
    /// `dst = Err(val)`
    WrapErr { dst: IrLocal, val: Value },
    /// `dst = is_none(val)`
    IsNone { dst: IrLocal, val: IrLocal },
    /// `dst = is_err(val)`
    IsErr { dst: IrLocal, val: IrLocal },
    /// `dst = unwrap(val)`; traps at run time on `None`/`Err`.
    Unwrap { dst: IrLocal, val: IrLocal },
    /// Create a closure capturing `captures`.
    Closure { dst: IrLocal, fn_name: String, captures: Vec<IrLocal> },
    /// No-op placeholder.
    Nop,
}

// ── Terminators ──────────────────────────────────────────────────────────────

#[derive(Debug, Clone)]
pub enum Terminator {
    /// `return val`
    Return(Option<Value>),
    /// Unconditional jump.
    Jump(BlockId),
    /// Conditional branch.
    Branch { cond: Value, then_bb: BlockId, else_bb: BlockId },
    /// Not reached (after an unconditional `return`).
    Unreachable,
}

// ── Basic block ──────────────────────────────────────────────────────────────

#[derive(Debug, Clone)]
pub struct BasicBlock {
    pub id: BlockId,
    pub instrs: Vec<Instr>,
    pub term: Terminator,
}

impl BasicBlock {
    pub fn new(id: BlockId) -> (b: BasicBlock)
        ensures
            b.id == id,
            b.instrs@.len() == 0,
            b.term is Unreachable,
    {
        BasicBlock { id, instrs: Vec::new(), term: Terminator::Unreachable }
    }
}

// ── Compile-time target ──────────────────────────────────────────────────────

/// Which runtime a function is compiled to.  Functions start as `Auto`; the
/// targeting pass fills in `Wasm` or `Js` before code generation.
#[derive(Debug, Clone, Copy, PartialEq, Eq, Structural)]
pub enum Target {
    /// Selvr bytecode run by the WASM VM.
    Wasm,
    /// JavaScript run by V8 directly.
    Js,
    /// Not decided yet.
    Auto,
}

impl Default for Target {
    fn default() -> (t: Target)
        ensures
            t == Target::Auto,
    {
        Target::Auto
    }
}

impl Target {
    pub open spec fn name_spec(self) -> Seq<char> {
        match self {
            Target::Wasm => "wasm"@,
            Target::Js => "js"@,
            Target::Auto => "auto"@,
        }
    }

    /// The target's name as written in attributes and reports.
    pub fn name(&self) -> (s: &'static str)
        ensures
            s@ == self.name_spec(),
    {
        match self {
            Target::Wasm => "wasm",
            Target::Js => "js",
            Target::Auto => "auto",
        }
    }
}

// ── Functions, globals, modules ──────────────────────────────────────────────

#[derive(Debug)]
pub struct IrFn {
    pub name: String,
    pub params: Vec<IrLocal>,
    pub ret_ty: IrType,
    pub blocks: Vec<BasicBlock>,
    pub num_locals: u32,
    pub is_async: bool,
    pub is_export: bool,
    /// Attribute names (`wasm`, `js`, `inline_bridge`, ...).
    pub attrs: Vec<String>,
    /// Runtime target assigned by the targeting pass.
    pub target: Target,
}

impl IrFn {
    /// The entry block (always index 0).
    pub fn entry(&self) -> (b: &BasicBlock)
        requires
            self.blocks@.len() > 0,
        ensures
            *b == self.blocks@[0],
    {
        &self.blocks[0]
    }
}

#[derive(Debug)]
pub struct IrGlobal {
    pub name: String,
    pub ty: IrType,
    pub init: Constant,
}

#[derive(Debug)]
pub struct IrModule {
    pub name: String,
    pub fns: Vec<IrFn>,
    pub globals: Vec<IrGlobal>,
}

} // verus!
