//! Abstract syntax tree of a Selvr source file.
//!
//!  - Every node carries a `Span` for error reporting.
//!  - Floating-point literals keep their source text (the toolchain's own
//!    logic never computes with them).
//!  - The tree is immutable after parsing.

use vstd::prelude::*;
use crate::token::Span;

verus! {

// ── Top-level ─────────────────────────────────────────────────────────────────

/// A single `.self` source file.
#[derive(Debug)]
pub struct Module {
    pub items: Vec<Item>,
    pub span: Span,
}

/// Top-level items that can appear in a module.
#[derive(Debug)]
pub enum Item {
    FnDef(FnDef),
    StructDef(StructDef),
    EnumDef(EnumDef),
    TraitDef(TraitDef),
    ImplBlock(ImplBlock),
    TypeAlias(TypeAlias),
    ImportDecl(ImportDecl), // import { X } from "module"
    ModDecl(ModDecl),
    Const(ConstItem),
    MacroDef(MacroDef),
}

// ── Visibility ────────────────────────────────────────────────────────────────

#[derive(Debug, Clone, Copy, PartialEq, Eq, Structural)]
pub enum Visibility {
    /// Default — visible only in the current module.
    Private,
    /// Declared with `export` — visible to importers.
    Public,
}

// ── Attributes ────────────────────────────────────────────────────────────────

/// A compile-time attribute applied to a function: `#[name]` or `#[name(arg)]`.
#[derive(Debug)]
pub struct Attr {
    pub name: String,
    pub args: Vec<String>, // e.g. #[cfg(target = "wasm")] → args = ["target = \"wasm\""]
    pub span: Span,
}

// ── Functions ─────────────────────────────────────────────────────────────────

#[derive(Debug)]
pub struct FnDef {
    pub vis: Visibility,
    pub name: String,
    pub generics: Vec<GenericParam>,
    pub params: Vec<Param>,
    pub return_ty: Option<Type>,
    pub body: Block,
    pub is_async: bool,
    pub attrs: Vec<Attr>,
    pub span: Span,
}

#[derive(Debug)]
pub struct Param {
    pub name: String,
    pub ty: Type,
    pub span: Span,
}

// ── Types ─────────────────────────────────────────────────────────────────────

#[derive(Debug)]
pub enum Type {
    /// Named type, e.g. `i32`, `MyStruct`, `Option<T>`
    Named { name: String, args: Vec<Type>, span: Span },
    /// Tuple type, e.g. `(i32, str)`
    Tuple { elems: Vec<Type>, span: Span },
    /// Array type, e.g. `[i32; 4]`
    Array { elem: Box<Type>, len: Option<Box<Expr>>, span: Span },
    /// Function type, e.g. `fn(i32, str) -> bool`
    Fn { params: Vec<Type>, ret: Box<Type>, span: Span },
    /// `void` — no meaningful return value
    Void(Span),
    /// Inferred — written as `_` in the source
    Infer(Span),
}

impl Type {
    pub open spec fn span_spec(&self) -> Span {
        match self {
            Type::Named { span, .. } => *span,
            Type::Tuple { span, .. } => *span,
            Type::Array { span, .. } => *span,
            Type::Fn { span, .. } => *span,
            Type::Void(s) => *s,
            Type::Infer(s) => *s,
        }
    }

    /// The span the type was written at.
    pub fn span(&self) -> (r: Span)
        ensures
            r == self.span_spec(),
    {
        match self {
            Type::Named { span, .. } => *span,
            Type::Tuple { span, .. } => *span,
            Type::Array { span, .. } => *span,
            Type::Fn { span, .. }    => *span,
            Type::Void(s)            => *s,
            Type::Infer(s)           => *s,
        }
    }
}

// ── Generics ──────────────────────────────────────────────────────────────────

#[derive(Debug)]
pub struct GenericParam {
    pub name: String,
    pub bounds: Vec<Type>,
    pub span: Span,
}

// ── Structs & Enums ───────────────────────────────────────────────────────────

#[derive(Debug)]
pub struct StructDef {
    pub vis: Visibility,
    pub name: String,
    pub generics: Vec<GenericParam>,
    pub fields: Vec<StructField>,
    pub span: Span,
}

#[derive(Debug)]
pub struct StructField {
    pub vis: Visibility,
    pub name: String,
    pub ty: Type,
    pub span: Span,
}

#[derive(Debug)]
pub struct EnumDef {
    pub vis: Visibility,
    pub name: String,
    pub generics: Vec<GenericParam>,
    pub variants: Vec<EnumVariant>,
    pub span: Span,
}

#[derive(Debug)]
pub struct EnumVariant {
    pub name: String,
    pub kind: VariantKind,
    pub span: Span,
}

#[derive(Debug)]
pub enum VariantKind {
    Unit,
    Tuple(Vec<Type>),
    Struct(Vec<StructField>),
}

// ── Traits & Impls ────────────────────────────────────────────────────────────

#[derive(Debug)]
pub struct TraitDef {
    pub vis: Visibility,
    pub name: String,
    pub generics: Vec<GenericParam>,
    pub items: Vec<TraitItem>,
    pub span: Span,
}

#[derive(Debug)]
pub enum TraitItem {
    FnSig(FnSig),
    FnDef(FnDef),
    TypeAssoc { name: String, bounds: Vec<Type>, span: Span },
}

#[derive(Debug)]
pub struct FnSig {
    pub name: String,
    pub generics: Vec<GenericParam>,
    pub params: Vec<Param>,
    pub return_ty: Option<Type>,
    pub is_async: bool,
    pub span: Span,
}

#[derive(Debug)]
pub struct ImplBlock {
    pub generics: Vec<GenericParam>,
    pub trait_: Option<Type>,
    pub self_ty: Type,
    pub items: Vec<ImplItem>,
    pub span: Span,
}

#[derive(Debug)]
pub enum ImplItem {
    Fn(FnDef),
    Const(ConstItem),
    TypeAssoc { name: String, ty: Type, span: Span },
}

// ── Type alias ────────────────────────────────────────────────────────────────

#[derive(Debug)]
pub struct TypeAlias {
    pub vis: Visibility,
    pub name: String,
    pub generics: Vec<GenericParam>,
    pub ty: Type,
    pub span: Span,
}

// ── Import ────────────────────────────────────────────────────────────────────

/// `import { X, Y as Z } from "module"`
/// `import * from "module"`
#[derive(Debug)]
pub struct ImportDecl {
    pub items: ImportItems,
    pub source: String,
    pub span: Span,
}

#[derive(Debug)]
pub enum ImportItems {
    /// `import { X, Y as Z } from "..."`
    Named(Vec<ImportedName>),
    /// `import * from "..."`
    Glob,
}

#[derive(Debug)]
pub struct ImportedName {
    pub name: String,
    pub alias: Option<String>,
    pub span: Span,
}

#[derive(Debug)]
pub struct ModDecl {
    pub vis: Visibility,
    pub name: String,
    pub body: Option<Module>,
    pub span: Span,
}

// ── Constants ─────────────────────────────────────────────────────────────────

#[derive(Debug)]
pub struct ConstItem {
    pub vis: Visibility,
    pub name: String,
    pub ty: Option<Type>,
    pub value: Expr,
    pub span: Span,
}

// ── Macros ────────────────────────────────────────────────────────────────────

#[derive(Debug)]
pub struct MacroDef {
    pub name: String,
    pub body: TokenTree,
    pub span: Span,
}

/// Opaque placeholder — macro bodies are stored as token trees and expanded
/// during the HIR lowering phase.
#[derive(Debug)]
pub struct TokenTree {
    pub span: Span,
}

// ── Statements ────────────────────────────────────────────────────────────────

#[derive(Debug)]
pub struct Block {
    pub stmts: Vec<Stmt>,
    /// The optional trailing expression (value the block evaluates to).
    pub tail: Option<Box<Expr>>,
    pub span: Span,
}

#[derive(Debug)]
pub enum Stmt {
    Let(LetStmt),
    Expr(Expr, Span),   // expression followed by `;`
    Item(Item),
}

#[derive(Debug)]
pub struct LetStmt {
    pub pattern: Pattern,
    pub ty: Option<Type>,
    pub init: Option<Expr>,
    pub span: Span,
}

// ── Expressions ───────────────────────────────────────────────────────────────

#[derive(Debug)]
pub struct Expr {
    pub kind: ExprKind,
    pub span: Span,
}

#[derive(Debug)]
pub enum ExprKind {
    // Literals
    IntLit(i64),
    FloatLit(String),
    BoolLit(bool),
    StrLit(String),
    CharLit(char),

    // Name resolution
    Path(Path),

    // Operators
    Unary  { op: UnaryOp, expr: Box<Expr> },
    Binary { op: BinaryOp, lhs: Box<Expr>, rhs: Box<Expr> },
    Assign { target: Box<Expr>, rhs: Box<Expr> },
    CompoundAssign { op: BinaryOp, target: Box<Expr>, rhs: Box<Expr> },

    // Control flow
    If { cond: Box<Expr>, then: Block, else_: Option<Box<Expr>> },
    Match { scrutinee: Box<Expr>, arms: Vec<MatchArm> },
    Loop(Block),
    While { cond: Box<Expr>, body: Block },
    For   { pat: Pattern, iter: Box<Expr>, body: Block },
    Break { value: Option<Box<Expr>> },
    Continue,
    Return { value: Option<Box<Expr>> },

    // Calls & access
    Call { callee: Box<Expr>, args: Vec<Expr> },
    MethodCall { receiver: Box<Expr>, method: String, args: Vec<Expr> },
    Field { base: Box<Expr>, field: String },
    Index { base: Box<Expr>, index: Box<Expr> },

    // Constructors
    StructLit { ty: Path, fields: Vec<FieldInit> },
    TupleLit(Vec<Expr>),
    ArrayLit(Vec<Expr>),
    ArrayRepeat { elem: Box<Expr>, len: Box<Expr> },

    // Closures — `(x: i32, y: i32): i32 => expr`
    // params may omit types when inferable; body may be a block or single expression.
    Closure { params: Vec<ClosureParam>, ret: Option<Type>, body: Box<Expr> },

    // Template literal — `Hello ${name}, you are ${age} years old`
    // Segments and interpolated expressions are interleaved:
    //   [Segment("Hello "), Expr(name), Segment(", you are "), Expr(age), Segment(" years old")]
    TemplateLit { parts: Vec<TemplatePart> },

    // Async
    Await(Box<Expr>),

    // Type ascription / cast
    Cast { expr: Box<Expr>, ty: Type },

    // Block expression
    Block(Block),

    // Range
    Range { start: Option<Box<Expr>>, end: Option<Box<Expr>>, inclusive: bool },

    // Macro invocation
    MacroCall { name: String, args: TokenTree },
}

// ── Paths ─────────────────────────────────────────────────────────────────────

#[derive(Debug)]
pub struct Path {
    pub segments: Vec<PathSegment>,
    pub span: Span,
}

#[derive(Debug)]
pub struct PathSegment {
    pub name: String,
    pub args: Vec<Type>,
    pub span: Span,
}

// ── Patterns ──────────────────────────────────────────────────────────────────

#[derive(Debug)]
pub struct Pattern {
    pub kind: PatternKind,
    pub span: Span,
}

#[derive(Debug)]
pub enum PatternKind {
    Wildcard,
    Ident { name: String, mutable: bool },
    Literal(LitPat),
    Tuple(Vec<Pattern>),
    Array(Vec<Pattern>),
    Struct { path: Path, fields: Vec<FieldPat>, rest: bool },
    TupleStruct { path: Path, elems: Vec<Pattern> },
    Or(Vec<Pattern>),
    Range { start: Option<Box<Pattern>>, end: Option<Box<Pattern>>, inclusive: bool },
}

#[derive(Debug)]
pub enum LitPat {
    Int(i64),
    Float(String),
    Bool(bool),
    Str(String),
    Char(char),
}

#[derive(Debug)]
pub struct FieldPat {
    pub name: String,
    pub pat: Option<Pattern>,
    pub span: Span,
}

// ── Match arms ────────────────────────────────────────────────────────────────

#[derive(Debug)]
pub struct MatchArm {
    pub pattern: Pattern,
    pub guard: Option<Box<Expr>>,
    pub body: Box<Expr>,
    pub span: Span,
}

// ── Struct field initializer ──────────────────────────────────────────────────

#[derive(Debug)]
pub struct FieldInit {
    pub name: String,
    pub value: Option<Expr>,
    pub span: Span,
}

// ── Closure params ────────────────────────────────────────────────────────────

#[derive(Debug)]
pub struct ClosureParam {
    pub pat: Pattern,
    pub ty: Option<Type>,
    pub span: Span,
}

// ── Template literal parts ────────────────────────────────────────────────────

#[derive(Debug)]
pub enum TemplatePart {
    /// A literal text segment (already un-escaped).
    Str(String),
    /// An interpolated expression `${expr}`.
    Expr(Box<Expr>),
}

// ── Operators ─────────────────────────────────────────────────────────────────

#[derive(Debug, Clone, Copy, PartialEq, Eq, Structural)]
pub enum UnaryOp { Neg, Not, Deref }

#[derive(Debug, Clone, Copy, PartialEq, Eq, Structural)]
pub enum BinaryOp {
    Add, Sub, Mul, Div, Rem,
    BitAnd, BitOr, BitXor, Shl, Shr,
    And, Or,
    Eq, Ne, Lt, Le, Gt, Ge,
}

} // verus!
