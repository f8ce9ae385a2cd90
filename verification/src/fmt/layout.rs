//! The canonical text of every syntax node, at nesting depth `d` with `k`
//! spaces per level: what the printer writes for it.

use vstd::prelude::*;
use crate::ast::{
    Module, Item, Attr, FnDef, Param, Block, Type, GenericParam, Stmt, Pattern, PatternKind, LitPat, Path,
    PathSegment, Expr, ExprKind, UnaryOp, BinaryOp, FieldPat, FieldInit, ClosureParam, TemplatePart, MatchArm, StructDef,
    StructField, EnumDef, EnumVariant, VariantKind, TraitDef, TraitItem, ImplBlock, ImplItem, TypeAlias,
    ImportDecl, ImportItems, ImportedName, ModDecl, ConstItem, Visibility,
};
use crate::text::int_str;
use crate::target::infer::join;
use crate::fmt::printer::binop_text;

verus! {

/// The number of indentation spaces at depth `d` (saturating).
pub open spec fn ind_width(d: usize, k: usize) -> nat {
    if k != 0 && d > usize::MAX / k {
        usize::MAX as nat
    } else {
        (d * k) as nat
    }
}

/// The indentation at depth `d`.
pub open spec fn ind_text(d: usize, k: usize) -> Seq<char> {
    Seq::new(ind_width(d, k), |i: int| ' ')
}

/// One level deeper (saturating).
pub open spec fn deeper(d: usize) -> usize {
    if d < usize::MAX {
        (d + 1) as usize
    } else {
        d
    }
}

pub open spec fn vis_text(v: Visibility) -> Seq<char> {
    if v == Visibility::Public {
        "export "@
    } else {
        seq![]
    }
}

pub open spec fn bool_lit(b: bool) -> Seq<char> {
    if b {
        "true"@
    } else {
        "false"@
    }
}

pub open spec fn range_op(inclusive: bool) -> Seq<char> {
    if inclusive {
        "..="@
    } else {
        ".."@
    }
}

pub open spec fn unary_text(op: UnaryOp) -> Seq<char> {
    match op {
        UnaryOp::Neg => "-"@,
        UnaryOp::Not => "!"@,
        UnaryOp::Deref => "*"@,
    }
}

/// Whether a statement expression of this kind takes no `;`.
pub open spec fn block_like(e: Expr) -> bool {
    e.kind is If || e.kind is While || e.kind is For || e.kind is Loop
}

// ── Types ────────────────────────────────────────────────────────────────────

pub open spec fn type_text(t: Type, d: usize, k: usize) -> Seq<char>
    decreases t, 0nat,
{
    match t {
        Type::Named { name, args, .. } => if args@.len() > 0 {
            name@ + "<"@ + types_text(args@, ", "@, d, k) + ">"@
        } else {
            name@
        },
        Type::Tuple { elems, .. } => "("@ + types_text(elems@, ", "@, d, k) + ")"@,
        Type::Array { elem, len, .. } => "["@ + type_text(*elem, d, k) + match len {
            Some(l) => "; "@ + expr_text(*l, d, k),
            None => seq![],
        } + "]"@,
        Type::Fn { params, ret, .. } => "fn("@ + types_text(params@, ", "@, d, k) + ") -> "@ + type_text(*ret, d, k),
        Type::Void(_) => "void"@,
        Type::Infer(_) => "_"@,
    }
}

pub open spec fn types_text(ts: Seq<Type>, sep: Seq<char>, d: usize, k: usize) -> Seq<char>
    decreases ts, 0nat,
{
    if ts.len() == 0 {
        seq![]
    } else if ts.len() == 1 {
        type_text(ts[0], d, k)
    } else {
        types_text(ts.drop_last(), sep, d, k) + sep + type_text(ts.last(), d, k)
    }
}

pub open spec fn generic_text(g: GenericParam, d: usize, k: usize) -> Seq<char>
    decreases g, 0nat,
{
    g.name@ + if g.bounds@.len() > 0 {
        ": "@ + types_text(g.bounds@, " + "@, d, k)
    } else {
        seq![]
    }
}

pub open spec fn generic_list_text(gs: Seq<GenericParam>, d: usize, k: usize) -> Seq<char>
    decreases gs, 0nat,
{
    if gs.len() == 0 {
        seq![]
    } else if gs.len() == 1 {
        generic_text(gs[0], d, k)
    } else {
        generic_list_text(gs.drop_last(), d, k) + ", "@ + generic_text(gs.last(), d, k)
    }
}

pub open spec fn generics_text(gs: Seq<GenericParam>, d: usize, k: usize) -> Seq<char>
    decreases gs, 1nat,
{
    if gs.len() == 0 {
        seq![]
    } else {
        "<"@ + generic_list_text(gs, d, k) + ">"@
    }
}

// ── Paths and patterns ───────────────────────────────────────────────────────

pub open spec fn segment_text(s: PathSegment, d: usize, k: usize) -> Seq<char>
    decreases s, 0nat,
{
    s.name@ + if s.args@.len() > 0 {
        "<"@ + types_text(s.args@, ", "@, d, k) + ">"@
    } else {
        seq![]
    }
}

pub open spec fn segments_text(ss: Seq<PathSegment>, d: usize, k: usize) -> Seq<char>
    decreases ss, 0nat,
{
    if ss.len() == 0 {
        seq![]
    } else if ss.len() == 1 {
        segment_text(ss[0], d, k)
    } else {
        segments_text(ss.drop_last(), d, k) + "::"@ + segment_text(ss.last(), d, k)
    }
}

pub open spec fn path_text(p: Path, d: usize, k: usize) -> Seq<char>
    decreases p, 0nat,
{
    segments_text(p.segments@, d, k)
}

pub open spec fn lit_pat_text(l: LitPat) -> Seq<char> {
    match l {
        LitPat::Int(n) => int_str(n as int),
        LitPat::Float(f) => f@,
        LitPat::Bool(b) => bool_lit(b),
        LitPat::Str(s) => "\""@ + s@ + "\""@,
        LitPat::Char(c) => seq!['\'', c, '\''],
    }
}

pub open spec fn pattern_text(p: Pattern, d: usize, k: usize) -> Seq<char>
    decreases p, 0nat,
{
    match p.kind {
        PatternKind::Wildcard => "_"@,
        PatternKind::Ident { name, mutable } => (if mutable { "mut "@ } else { seq![] }) + name@,
        PatternKind::Literal(l) => lit_pat_text(l),
        PatternKind::Tuple(elems) => "("@ + patterns_text(elems@, ", "@, d, k) + ")"@,
        PatternKind::Array(elems) => "["@ + patterns_text(elems@, ", "@, d, k) + "]"@,
        PatternKind::Struct { path, fields, rest } => path_text(path, d, k) + " { "@ + field_pats_text(fields@, d, k)
            + (if rest { ", .."@ } else { seq![] }) + " }"@,
        PatternKind::TupleStruct { path, elems } => path_text(path, d, k) + "("@ + patterns_text(elems@, ", "@, d, k)
            + ")"@,
        PatternKind::Or(pats) => patterns_text(pats@, " | "@, d, k),
        PatternKind::Range { start, end, inclusive } => (match start {
            Some(s) => pattern_text(*s, d, k),
            None => seq![],
        }) + range_op(inclusive) + (match end {
            Some(e) => pattern_text(*e, d, k),
            None => seq![],
        }),
    }
}

pub open spec fn patterns_text(ps: Seq<Pattern>, sep: Seq<char>, d: usize, k: usize) -> Seq<char>
    decreases ps, 0nat,
{
    if ps.len() == 0 {
        seq![]
    } else if ps.len() == 1 {
        pattern_text(ps[0], d, k)
    } else {
        patterns_text(ps.drop_last(), sep, d, k) + sep + pattern_text(ps.last(), d, k)
    }
}

pub open spec fn field_pat_text(f: FieldPat, d: usize, k: usize) -> Seq<char>
    decreases f, 0nat,
{
    f.name@ + match f.pat {
        Some(p) => ": "@ + pattern_text(p, d, k),
        None => seq![],
    }
}

pub open spec fn field_pats_text(fs: Seq<FieldPat>, d: usize, k: usize) -> Seq<char>
    decreases fs, 0nat,
{
    if fs.len() == 0 {
        seq![]
    } else if fs.len() == 1 {
        field_pat_text(fs[0], d, k)
    } else {
        field_pats_text(fs.drop_last(), d, k) + ", "@ + field_pat_text(fs.last(), d, k)
    }
}

// ── Expressions ──────────────────────────────────────────────────────────────

pub open spec fn opt_expr_text(pre: Seq<char>, x: Option<Box<Expr>>, d: usize, k: usize) -> Seq<char>
    decreases x, 0nat,
{
    match x {
        Some(v) => pre + expr_text(*v, d, k),
        None => seq![],
    }
}

pub open spec fn else_text(el: Expr, d: usize, k: usize) -> Seq<char>
    decreases el, 1nat,
{
    match el.kind {
        ExprKind::If { .. } => expr_text(el, d, k),
        ExprKind::Block(b) => block_text(b, d, k),
        _ => "{ "@ + expr_text(el, d, k) + " }"@,
    }
}

/// How tightly a binary operator binds: `||` loosest, `*` `/` `%` tightest.
pub open spec fn binop_prec(op: BinaryOp) -> nat {
    match op {
        BinaryOp::Or => 1,
        BinaryOp::And => 2,
        BinaryOp::Eq | BinaryOp::Ne => 3,
        BinaryOp::Lt | BinaryOp::Le | BinaryOp::Gt | BinaryOp::Ge => 4,
        BinaryOp::BitOr => 5,
        BinaryOp::BitXor => 6,
        BinaryOp::BitAnd => 7,
        BinaryOp::Shl | BinaryOp::Shr => 8,
        BinaryOp::Add | BinaryOp::Sub => 9,
        BinaryOp::Mul | BinaryOp::Div | BinaryOp::Rem => 10,
    }
}

/// How tightly an expression binds as an operand: a binary expression by
/// its operator, a prefix operator above every binary one, assignments
/// below all, and everything else as an atom.
pub open spec fn expr_prec(e: Expr) -> nat {
    match e.kind {
        ExprKind::Binary { op, .. } => binop_prec(op),
        ExprKind::Unary { .. } => 11,
        ExprKind::Assign { .. } | ExprKind::CompoundAssign { .. } | ExprKind::Range { .. } | ExprKind::Closure {
            ..
        } => 0,
        _ => 12,
    }
}

/// `e` as an operand of an operator of precedence `p` needs parentheses to
/// read back as the same tree; `right` for the right operand of a binary
/// operator, which groups to the left.
pub open spec fn needs_parens(e: Expr, p: nat, right: bool) -> bool {
    expr_prec(e) < p || (right && expr_prec(e) == p && e.kind is Binary)
}

/// The text of `e` as an operand of an operator of precedence `p`.
pub open spec fn operand_text(e: Expr, p: nat, right: bool, d: usize, k: usize) -> Seq<char>
    decreases e, 1nat,
{
    if needs_parens(e, p, right) {
        "("@ + expr_text(e, d, k) + ")"@
    } else {
        expr_text(e, d, k)
    }
}

pub open spec fn expr_text(e: Expr, d: usize, k: usize) -> Seq<char>
    decreases e, 0nat,
{
    match e.kind {
        ExprKind::IntLit(n) => int_str(n as int),
        ExprKind::FloatLit(f) => f@,
        ExprKind::BoolLit(b) => bool_lit(b),
        ExprKind::StrLit(s) => "\""@ + s@ + "\""@,
        ExprKind::CharLit(c) => seq!['\'', c, '\''],
        ExprKind::Path(p) => path_text(p, d, k),
        ExprKind::Unary { op, expr } => unary_text(op) + operand_text(*expr, 11, false, d, k),
        ExprKind::Binary { op, lhs, rhs } => operand_text(*lhs, binop_prec(op), false, d, k) + " "@ + binop_text(op)
            + " "@ + operand_text(*rhs, binop_prec(op), true, d, k),
        ExprKind::Assign { target, rhs } => expr_text(*target, d, k) + " = "@ + expr_text(*rhs, d, k),
        ExprKind::CompoundAssign { op, target, rhs } => expr_text(*target, d, k) + " "@ + binop_text(op) + "= "@
            + expr_text(*rhs, d, k),
        ExprKind::If { cond, then, else_ } => "if "@ + expr_text(*cond, d, k) + " "@ + block_text(then, d, k)
            + match else_ {
            Some(el) => " else "@ + else_text(*el, d, k),
            None => seq![],
        },
        ExprKind::Match { scrutinee, arms } => "match "@ + expr_text(*scrutinee, d, k) + " {\n"@ + arms_text(
            arms@,
            deeper(d),
            k,
        ) + ind_text(d, k) + "}"@,
        ExprKind::Loop(body) => "loop "@ + block_text(body, d, k),
        ExprKind::While { cond, body } => "while "@ + expr_text(*cond, d, k) + " "@ + block_text(body, d, k),
        ExprKind::For { pat, iter, body } => "for "@ + pattern_text(pat, d, k) + " in "@ + expr_text(*iter, d, k) + " "@
            + block_text(body, d, k),
        ExprKind::Break { value } => "break"@ + opt_expr_text(" "@, value, d, k),
        ExprKind::Continue => "continue"@,
        ExprKind::Return { value } => "return"@ + opt_expr_text(" "@, value, d, k),
        ExprKind::Call { callee, args } => operand_text(*callee, 12, false, d, k) + "("@ + exprs_text(args@, d, k) + ")"@,
        ExprKind::MethodCall { receiver, method, args } => operand_text(*receiver, 12, false, d, k) + "."@ + method@ + "("@
            + exprs_text(args@, d, k) + ")"@,
        ExprKind::Field { base, field } => operand_text(*base, 12, false, d, k) + "."@ + field@,
        ExprKind::Index { base, index } => operand_text(*base, 12, false, d, k) + "["@ + expr_text(*index, d, k) + "]"@,
        ExprKind::StructLit { ty, fields } => path_text(ty, d, k) + " { "@ + field_inits_text(fields@, d, k) + " }"@,
        ExprKind::TupleLit(elems) => "("@ + exprs_text(elems@, d, k) + ")"@,
        ExprKind::ArrayLit(elems) => "["@ + exprs_text(elems@, d, k) + "]"@,
        ExprKind::ArrayRepeat { elem, len } => "["@ + expr_text(*elem, d, k) + "; "@ + expr_text(*len, d, k) + "]"@,
        ExprKind::Closure { params, ret, body } => "("@ + closure_params_text(params@, d, k) + ")"@ + match ret {
            Some(r) => ": "@ + type_text(r, d, k),
            None => seq![],
        } + " => "@ + expr_text(*body, d, k),
        ExprKind::TemplateLit { parts } => "`"@ + template_text(parts@, d, k) + "`"@,
        ExprKind::Await(x) => expr_text(*x, d, k) + ".await"@,
        ExprKind::Cast { expr, ty } => expr_text(*expr, d, k) + " as "@ + type_text(ty, d, k),
        ExprKind::Block(b) => block_text(b, d, k),
        ExprKind::Range { start, end, inclusive } => opt_expr_text(seq![], start, d, k) + range_op(inclusive)
            + opt_expr_text(seq![], end, d, k),
        ExprKind::MacroCall { name, .. } => name@ + "!(...)"@,
    }
}

pub open spec fn exprs_text(es: Seq<Expr>, d: usize, k: usize) -> Seq<char>
    decreases es, 0nat,
{
    if es.len() == 0 {
        seq![]
    } else if es.len() == 1 {
        expr_text(es[0], d, k)
    } else {
        exprs_text(es.drop_last(), d, k) + ", "@ + expr_text(es.last(), d, k)
    }
}

pub open spec fn field_init_text(f: FieldInit, d: usize, k: usize) -> Seq<char>
    decreases f, 0nat,
{
    f.name@ + match f.value {
        Some(v) => ": "@ + expr_text(v, d, k),
        None => seq![],
    }
}

pub open spec fn field_inits_text(fs: Seq<FieldInit>, d: usize, k: usize) -> Seq<char>
    decreases fs, 0nat,
{
    if fs.len() == 0 {
        seq![]
    } else if fs.len() == 1 {
        field_init_text(fs[0], d, k)
    } else {
        field_inits_text(fs.drop_last(), d, k) + ", "@ + field_init_text(fs.last(), d, k)
    }
}

pub open spec fn closure_param_text(p: ClosureParam, d: usize, k: usize) -> Seq<char>
    decreases p, 0nat,
{
    pattern_text(p.pat, d, k) + match p.ty {
        Some(t) => ": "@ + type_text(t, d, k),
        None => seq![],
    }
}

pub open spec fn closure_params_text(ps: Seq<ClosureParam>, d: usize, k: usize) -> Seq<char>
    decreases ps, 0nat,
{
    if ps.len() == 0 {
        seq![]
    } else if ps.len() == 1 {
        closure_param_text(ps[0], d, k)
    } else {
        closure_params_text(ps.drop_last(), d, k) + ", "@ + closure_param_text(ps.last(), d, k)
    }
}

pub open spec fn template_text(ps: Seq<TemplatePart>, d: usize, k: usize) -> Seq<char>
    decreases ps, 0nat,
{
    if ps.len() == 0 {
        seq![]
    } else {
        template_text(ps.drop_last(), d, k) + match ps.last() {
            TemplatePart::Str(s) => s@,
            TemplatePart::Expr(x) => "${"@ + expr_text(*x, d, k) + "}"@,
        }
    }
}

pub open spec fn arm_text(a: MatchArm, d: usize, k: usize) -> Seq<char>
    decreases a, 0nat,
{
    ind_text(d, k) + pattern_text(a.pattern, d, k) + opt_expr_text(" if "@, a.guard, d, k) + " => "@ + expr_text(
        *a.body,
        d,
        k,
    ) + ",\n"@
}

pub open spec fn arms_text(arms: Seq<MatchArm>, d: usize, k: usize) -> Seq<char>
    decreases arms, 0nat,
{
    if arms.len() == 0 {
        seq![]
    } else {
        arms_text(arms.drop_last(), d, k) + arm_text(arms.last(), d, k)
    }
}

// ── Blocks and statements ────────────────────────────────────────────────────

pub open spec fn block_text(b: Block, d: usize, k: usize) -> Seq<char>
    decreases b, 0nat,
{
    "{\n"@ + stmts_text(b.stmts@, deeper(d), k) + match b.tail {
        Some(t) => ind_text(deeper(d), k) + expr_text(*t, deeper(d), k) + "\n"@,
        None => seq![],
    } + ind_text(d, k) + "}"@
}

pub open spec fn stmt_text(s: Stmt, d: usize, k: usize) -> Seq<char>
    decreases s, 0nat,
{
    match s {
        Stmt::Let(b) => ind_text(d, k) + "let "@ + pattern_text(b.pattern, d, k) + match b.ty {
            Some(t) => ": "@ + type_text(t, d, k),
            None => seq![],
        } + match b.init {
            Some(x) => " = "@ + expr_text(x, d, k),
            None => seq![],
        } + ";\n"@,
        Stmt::Expr(e, _) => ind_text(d, k) + expr_text(e, d, k) + (if block_like(e) { seq![] } else { ";"@ }) + "\n"@,
        Stmt::Item(item) => item_text(item, d, k),
    }
}

pub open spec fn stmts_text(ss: Seq<Stmt>, d: usize, k: usize) -> Seq<char>
    decreases ss, 0nat,
{
    if ss.len() == 0 {
        seq![]
    } else {
        stmts_text(ss.drop_last(), d, k) + stmt_text(ss.last(), d, k)
    }
}

// ── Items ────────────────────────────────────────────────────────────────────

pub open spec fn attr_text(a: Attr, d: usize, k: usize) -> Seq<char> {
    ind_text(d, k) + "#["@ + a.name@ + (if a.args@.len() > 0 {
        "("@ + join(a.args@.map_values(|s: String| s@), ", "@) + ")"@
    } else {
        seq![]
    }) + "]\n"@
}

pub open spec fn attrs_text(attrs: Seq<Attr>, d: usize, k: usize) -> Seq<char>
    decreases attrs.len(),
{
    if attrs.len() == 0 {
        seq![]
    } else {
        attrs_text(attrs.drop_last(), d, k) + attr_text(attrs.last(), d, k)
    }
}

pub open spec fn param_text(p: Param, d: usize, k: usize) -> Seq<char>
    decreases p, 0nat,
{
    p.name@ + ": "@ + type_text(p.ty, d, k)
}

pub open spec fn params_text(ps: Seq<Param>, d: usize, k: usize) -> Seq<char>
    decreases ps, 0nat,
{
    if ps.len() == 0 {
        seq![]
    } else if ps.len() == 1 {
        param_text(ps[0], d, k)
    } else {
        params_text(ps.drop_last(), d, k) + ", "@ + param_text(ps.last(), d, k)
    }
}

pub open spec fn ret_text(r: Option<Type>, d: usize, k: usize) -> Seq<char>
    decreases r, 0nat,
{
    match r {
        Some(t) => ": "@ + type_text(t, d, k),
        None => seq![],
    }
}

pub open spec fn fn_text(f: FnDef, d: usize, k: usize) -> Seq<char>
    decreases f, 0nat,
{
    attrs_text(f.attrs@, d, k) + ind_text(d, k) + vis_text(f.vis) + (if f.is_async { "async "@ } else { seq![] })
        + "fn "@ + f.name@ + generics_text(f.generics@, d, k) + "("@ + params_text(f.params@, d, k) + ")"@ + ret_text(
        f.return_ty,
        d,
        k,
    ) + " "@ + block_text(f.body, d, k) + "\n"@
}

pub open spec fn struct_field_text(f: StructField, d: usize, k: usize) -> Seq<char>
    decreases f, 0nat,
{
    ind_text(d, k) + (if f.vis == Visibility::Public { "pub "@ } else { seq![] }) + f.name@ + ": "@ + type_text(f.ty, d, k)
        + ",\n"@
}

pub open spec fn struct_fields_text(fs: Seq<StructField>, d: usize, k: usize) -> Seq<char>
    decreases fs, 0nat,
{
    if fs.len() == 0 {
        seq![]
    } else {
        struct_fields_text(fs.drop_last(), d, k) + struct_field_text(fs.last(), d, k)
    }
}

pub open spec fn struct_text(st: StructDef, d: usize, k: usize) -> Seq<char>
    decreases st, 0nat,
{
    ind_text(d, k) + vis_text(st.vis) + "struct "@ + st.name@ + generics_text(st.generics@, d, k) + " {\n"@
        + struct_fields_text(st.fields@, deeper(d), k) + ind_text(d, k) + "}\n"@
}

pub open spec fn variant_field_text(f: StructField, d: usize, k: usize) -> Seq<char>
    decreases f, 0nat,
{
    f.name@ + ": "@ + type_text(f.ty, d, k)
}

pub open spec fn variant_fields_text(fs: Seq<StructField>, d: usize, k: usize) -> Seq<char>
    decreases fs, 0nat,
{
    if fs.len() == 0 {
        seq![]
    } else if fs.len() == 1 {
        variant_field_text(fs[0], d, k)
    } else {
        variant_fields_text(fs.drop_last(), d, k) + ", "@ + variant_field_text(fs.last(), d, k)
    }
}

pub open spec fn variant_kind_text(vk: VariantKind, d: usize, k: usize) -> Seq<char>
    decreases vk, 0nat,
{
    match vk {
        VariantKind::Unit => seq![],
        VariantKind::Tuple(ts) => "("@ + types_text(ts@, ", "@, d, k) + ")"@,
        VariantKind::Struct(fs) => " { "@ + variant_fields_text(fs@, d, k) + " }"@,
    }
}

pub open spec fn variant_text(v: EnumVariant, d: usize, k: usize) -> Seq<char>
    decreases v, 0nat,
{
    ind_text(d, k) + v.name@ + variant_kind_text(v.kind, d, k) + ",\n"@
}

pub open spec fn variants_text(vs: Seq<EnumVariant>, d: usize, k: usize) -> Seq<char>
    decreases vs, 0nat,
{
    if vs.len() == 0 {
        seq![]
    } else {
        variants_text(vs.drop_last(), d, k) + variant_text(vs.last(), d, k)
    }
}

pub open spec fn enum_text(en: EnumDef, d: usize, k: usize) -> Seq<char>
    decreases en, 0nat,
{
    ind_text(d, k) + vis_text(en.vis) + "enum "@ + en.name@ + generics_text(en.generics@, d, k) + " {\n"@
        + variants_text(en.variants@, deeper(d), k) + ind_text(d, k) + "}\n"@
}

pub open spec fn trait_item_text(it: TraitItem, d: usize, k: usize) -> Seq<char>
    decreases it, 0nat,
{
    match it {
        TraitItem::FnSig(sig) => ind_text(d, k) + "fn "@ + sig.name@ + generics_text(sig.generics@, d, k) + "("@
            + params_text(sig.params@, d, k) + ")"@ + ret_text(sig.return_ty, d, k) + ";\n"@,
        TraitItem::FnDef(f) => fn_text(f, d, k),
        TraitItem::TypeAssoc { name, .. } => ind_text(d, k) + "type "@ + name@ + ";\n"@,
    }
}

pub open spec fn trait_items_text(its: Seq<TraitItem>, d: usize, k: usize) -> Seq<char>
    decreases its, 0nat,
{
    if its.len() == 0 {
        seq![]
    } else {
        trait_items_text(its.drop_last(), d, k) + trait_item_text(its.last(), d, k)
    }
}

pub open spec fn trait_text(t: TraitDef, d: usize, k: usize) -> Seq<char>
    decreases t, 0nat,
{
    ind_text(d, k) + vis_text(t.vis) + "trait "@ + t.name@ + generics_text(t.generics@, d, k) + " {\n"@
        + trait_items_text(t.items@, deeper(d), k) + ind_text(d, k) + "}\n"@
}

pub open spec fn impl_item_text(it: ImplItem, d: usize, k: usize) -> Seq<char>
    decreases it, 0nat,
{
    match it {
        ImplItem::Fn(f) => fn_text(f, d, k),
        ImplItem::Const(c) => const_text(c, d, k),
        ImplItem::TypeAssoc { name, ty, .. } => ind_text(d, k) + "type "@ + name@ + " = "@ + type_text(ty, d, k)
            + ";\n"@,
    }
}

pub open spec fn impl_items_text(its: Seq<ImplItem>, d: usize, k: usize) -> Seq<char>
    decreases its, 0nat,
{
    if its.len() == 0 {
        seq![]
    } else {
        impl_items_text(its.drop_last(), d, k) + impl_item_text(its.last(), d, k)
    }
}

pub open spec fn impl_trait_text(tr: Option<Type>, d: usize, k: usize) -> Seq<char>
    decreases tr, 0nat,
{
    match tr {
        Some(t) => " "@ + type_text(t, d, k) + " for "@,
        None => " "@,
    }
}

pub open spec fn impl_text(im: ImplBlock, d: usize, k: usize) -> Seq<char>
    decreases im, 0nat,
{
    ind_text(d, k) + "impl"@ + generics_text(im.generics@, d, k) + impl_trait_text(im.trait_, d, k)
        + type_text(im.self_ty, d, k) + " {\n"@ + impl_items_text(im.items@, deeper(d), k) + ind_text(d, k) + "}\n"@
}

pub open spec fn type_alias_text(a: TypeAlias, d: usize, k: usize) -> Seq<char>
    decreases a, 0nat,
{
    ind_text(d, k) + vis_text(a.vis) + "type "@ + a.name@ + generics_text(a.generics@, d, k) + " = "@ + type_text(
        a.ty,
        d,
        k,
    ) + ";\n"@
}

pub open spec fn imported_text(n: ImportedName) -> Seq<char> {
    n.name@ + match n.alias {
        Some(a) => " as "@ + a@,
        None => seq![],
    }
}

pub open spec fn imported_list_text(ns: Seq<ImportedName>) -> Seq<char>
    decreases ns.len(),
{
    if ns.len() == 0 {
        seq![]
    } else if ns.len() == 1 {
        imported_text(ns[0])
    } else {
        imported_list_text(ns.drop_last()) + ", "@ + imported_text(ns.last())
    }
}

pub open spec fn import_text(i: ImportDecl, d: usize, k: usize) -> Seq<char> {
    ind_text(d, k) + "import "@ + match i.items {
        ImportItems::Named(ns) => "{ "@ + imported_list_text(ns@) + " } "@,
        ImportItems::Glob => "* "@,
    } + "from \""@ + i.source@ + "\";\n"@
}

pub open spec fn mod_text(m: ModDecl, d: usize, k: usize) -> Seq<char>
    decreases m, 0nat,
{
    ind_text(d, k) + vis_text(m.vis) + "mod "@ + m.name@ + match m.body {
        Some(body) => " {\n"@ + module_text(body, deeper(d), k) + ind_text(d, k) + "}\n"@,
        None => ";\n"@,
    }
}

pub open spec fn const_text(c: ConstItem, d: usize, k: usize) -> Seq<char>
    decreases c, 0nat,
{
    ind_text(d, k) + vis_text(c.vis) + "const "@ + c.name@ + ret_text(c.ty, d, k) + " = "@ + expr_text(c.value, d, k)
        + ";\n"@
}

pub open spec fn item_text(item: Item, d: usize, k: usize) -> Seq<char>
    decreases item, 0nat,
{
    match item {
        Item::FnDef(f) => fn_text(f, d, k),
        Item::StructDef(s) => struct_text(s, d, k),
        Item::EnumDef(e) => enum_text(e, d, k),
        Item::TraitDef(t) => trait_text(t, d, k),
        Item::ImplBlock(i) => impl_text(i, d, k),
        Item::TypeAlias(a) => type_alias_text(a, d, k),
        Item::ImportDecl(i) => import_text(i, d, k),
        Item::ModDecl(m) => mod_text(m, d, k),
        Item::Const(c) => const_text(c, d, k),
        Item::MacroDef(_) => seq![],
    }
}

pub open spec fn items_text(items: Seq<Item>, d: usize, k: usize) -> Seq<char>
    decreases items, 0nat,
{
    if items.len() == 0 {
        seq![]
    } else if items.len() == 1 {
        item_text(items[0], d, k)
    } else {
        items_text(items.drop_last(), d, k) + "\n"@ + item_text(items.last(), d, k)
    }
}

/// A module's items, one blank line apart (each item's text ends its
/// last line).
pub open spec fn module_text(m: Module, d: usize, k: usize) -> Seq<char>
    decreases m, 0nat,
{
    items_text(m.items@, d, k)
}

} // verus!
