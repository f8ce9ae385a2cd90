//! The JavaScript text of every syntax node the back end handles, at
//! indentation level `k` (two spaces per level): what the emitter writes.

use vstd::prelude::*;
use crate::ast::{
    Item, FnDef, Param, StructDef, StructField, EnumDef, EnumVariant, VariantKind, ConstItem, Block, Stmt, Pattern,
    PatternKind, LitPat, Expr, ExprKind, UnaryOp, TemplatePart, Path, PathSegment, MatchArm, Visibility, FieldInit,
    ClosureParam,
};
use crate::token::{str_debug_text, char_debug_text};
use crate::text::{int_str, nat_digits};
use crate::codegen::js::js_binop_text;

verus! {

/// The indentation at level `k`.
pub open spec fn ws(k: usize) -> Seq<char> {
    Seq::new((2 * k) as nat, |i: int| ' ')
}

/// One level deeper (saturating).
pub open spec fn up1(k: usize) -> usize {
    if k < usize::MAX {
        (k + 1) as usize
    } else {
        k
    }
}

/// Two levels deeper (saturating).
pub open spec fn up2(k: usize) -> usize {
    if k < usize::MAX - 1 {
        (k + 2) as usize
    } else {
        usize::MAX
    }
}

pub open spec fn js_vis_text(v: Visibility) -> Seq<char> {
    if v == Visibility::Public {
        "export "@
    } else {
        seq![]
    }
}

pub open spec fn js_bool(b: bool) -> Seq<char> {
    if b {
        "true"@
    } else {
        "false"@
    }
}

/// A path as a JS member chain: its segment names joined by `.`.
pub open spec fn js_segments_text(ss: Seq<PathSegment>) -> Seq<char>
    decreases ss.len(),
{
    if ss.len() == 0 {
        seq![]
    } else if ss.len() == 1 {
        ss[0].name@
    } else {
        js_segments_text(ss.drop_last()) + "."@ + ss.last().name@
    }
}

pub open spec fn js_path_text(p: Path) -> Seq<char> {
    js_segments_text(p.segments@)
}

/// A destructuring pattern: a name, `_`, or an array of such.
pub open spec fn js_pat_text(p: Pattern) -> Seq<char>
    decreases p, 0nat,
{
    match p.kind {
        PatternKind::Ident { name, .. } => name@,
        PatternKind::Wildcard => "_"@,
        PatternKind::Tuple(ps) => "["@ + js_pats_text(ps@) + "]"@,
        _ => seq![],
    }
}

pub open spec fn js_pats_text(ps: Seq<Pattern>) -> Seq<char>
    decreases ps, 0nat,
{
    if ps.len() == 0 {
        seq![]
    } else if ps.len() == 1 {
        js_pat_text(ps[0])
    } else {
        js_pats_text(ps.drop_last()) + ", "@ + js_pat_text(ps.last())
    }
}

/// The condition that `scr` matches `p`.
pub open spec fn js_cond_text(scr: Seq<char>, p: Pattern) -> Seq<char> {
    match p.kind {
        PatternKind::Literal(lit) => scr + " === "@ + match lit {
            LitPat::Int(v) => int_str(v as int),
            LitPat::Bool(v) => js_bool(v),
            LitPat::Str(v) => str_debug_text(v@),
            LitPat::Float(v) => v@,
            LitPat::Char(v) => char_debug_text(v),
        },
        PatternKind::TupleStruct { path, .. } => scr + ".tag === "@ + str_debug_text(
            if path.segments@.len() > 0 {
                path.segments@.last().name@
            } else {
                "_"@
            },
        ),
        _ => "true"@,
    }
}

pub open spec fn js_unary_text(op: UnaryOp) -> Seq<char> {
    match op {
        UnaryOp::Not => "!"@,
        UnaryOp::Neg => "-"@,
        UnaryOp::Deref => ""@,
    }
}

pub open spec fn js_else_text(el: Expr, k: usize) -> Seq<char>
    decreases el, 1nat,
{
    match el.kind {
        ExprKind::Block(b) => js_block_text(b, k),
        _ => js_expr_text(el, k),
    }
}

pub open spec fn js_opt_else_text(el: Option<Box<Expr>>, k: usize) -> Seq<char>
    decreases el, 2nat,
{
    match el {
        Some(x) => " else "@ + js_else_text(*x, k),
        None => seq![],
    }
}

/// An expression's JS text.
pub open spec fn js_expr_text(e: Expr, k: usize) -> Seq<char>
    decreases e, 0nat,
{
    match e.kind {
        ExprKind::IntLit(v) => int_str(v as int),
        ExprKind::FloatLit(v) => v@,
        ExprKind::BoolLit(v) => js_bool(v),
        ExprKind::StrLit(v) => str_debug_text(v@),
        ExprKind::CharLit(v) => char_debug_text(v),
        ExprKind::Path(p) => js_path_text(p),
        ExprKind::Continue => "continue"@,
        ExprKind::Break { .. } => "break"@,
        ExprKind::Unary { op, expr } => js_unary_text(op) + "("@ + js_expr_text(*expr, k) + ")"@,
        ExprKind::Binary { op, lhs, rhs } => "("@ + js_expr_text(*lhs, k) + " "@ + js_binop_text(op) + " "@
            + js_expr_text(*rhs, k) + ")"@,
        ExprKind::Assign { target, rhs } => js_expr_text(*target, k) + " = "@ + js_expr_text(*rhs, k),
        ExprKind::CompoundAssign { op, target, rhs } => js_expr_text(*target, k) + " "@ + js_binop_text(op) + "= "@
            + js_expr_text(*rhs, k),
        ExprKind::Field { base, field } => js_expr_text(*base, k) + "."@ + field@,
        ExprKind::Index { base, index } => js_expr_text(*base, k) + "["@ + js_expr_text(*index, k) + "]"@,
        ExprKind::Await(x) => "(await "@ + js_expr_text(*x, k) + ")"@,
        ExprKind::Cast { expr, .. } => js_expr_text(*expr, k),
        ExprKind::If { cond, then, else_ } => "(() => { if ("@ + js_expr_text(*cond, k) + ") "@ + js_block_text(then, k)
            + js_opt_else_text(else_, k) + " })()"@,
        ExprKind::Match { scrutinee, arms } => "(() => {\n"@ + ws(up1(k)) + "const __m = "@ + js_expr_text(
            *scrutinee,
            up1(k),
        ) + ";\n"@ + js_arms_text(arms@, k) + ws(up1(k)) + "} else { __selvr.panic(\"non-exhaustive match\"); }\n"@
            + ws(k) + "})()"@,
        ExprKind::Block(b) => "(() => "@ + js_block_text(b, k) + ")()"@,
        ExprKind::Return { value } => "return"@ + match value {
            Some(v) => " "@ + js_expr_text(*v, k),
            None => seq![],
        },
        ExprKind::While { cond, body } => "while ("@ + js_expr_text(*cond, k) + ") "@ + js_block_text(body, k),
        ExprKind::Loop(body) => "while (true) "@ + js_block_text(body, k),
        ExprKind::For { pat, iter, body } => "for (const "@ + js_pat_text(pat) + " of "@ + js_expr_text(*iter, k) + ") "@
            + js_block_text(body, k),
        ExprKind::Call { callee, args } => js_expr_text(*callee, k) + "("@ + js_exprs_text(args@, k) + ")"@,
        ExprKind::MethodCall { receiver, method, args } => js_expr_text(*receiver, k) + "."@ + method@ + "("@
            + js_exprs_text(args@, k) + ")"@,
        ExprKind::TupleLit(es) => "["@ + js_exprs_text(es@, k) + "]"@,
        ExprKind::ArrayLit(es) => "["@ + js_exprs_text(es@, k) + "]"@,
        ExprKind::StructLit { ty, fields } => "new "@ + js_path_text(ty) + "("@ + js_fields_text(fields@, k) + ")"@,
        ExprKind::Closure { params, body, .. } => "("@ + js_params_text(params@) + ") => "@ + js_expr_text(*body, k),
        ExprKind::Range { start, end, inclusive } => "__selvr.range("@ + match start {
            Some(s) => js_expr_text(*s, k),
            None => "undefined"@,
        } + ", "@ + match end {
            Some(x) => js_expr_text(*x, k),
            None => "undefined"@,
        } + ", "@ + js_bool(inclusive) + ")"@,
        ExprKind::TemplateLit { parts } => "`"@ + js_parts_text(parts@, k) + "`"@,
        ExprKind::MacroCall { .. } => seq![],
        ExprKind::ArrayRepeat { .. } => seq![],
    }
}

pub open spec fn js_exprs_text(es: Seq<Expr>, k: usize) -> Seq<char>
    decreases es, 0nat,
{
    if es.len() == 0 {
        seq![]
    } else if es.len() == 1 {
        js_expr_text(es[0], k)
    } else {
        js_exprs_text(es.drop_last(), k) + ", "@ + js_expr_text(es.last(), k)
    }
}

pub open spec fn js_field_text(f: FieldInit, k: usize) -> Seq<char>
    decreases f, 0nat,
{
    match f.value {
        Some(v) => js_expr_text(v, k),
        None => f.name@,
    }
}

pub open spec fn js_fields_text(fs: Seq<FieldInit>, k: usize) -> Seq<char>
    decreases fs, 0nat,
{
    if fs.len() == 0 {
        seq![]
    } else if fs.len() == 1 {
        js_field_text(fs[0], k)
    } else {
        js_fields_text(fs.drop_last(), k) + ", "@ + js_field_text(fs.last(), k)
    }
}

pub open spec fn js_params_text(ps: Seq<ClosureParam>) -> Seq<char>
    decreases ps.len(),
{
    if ps.len() == 0 {
        seq![]
    } else if ps.len() == 1 {
        js_pat_text(ps[0].pat)
    } else {
        js_params_text(ps.drop_last()) + ", "@ + js_pat_text(ps.last().pat)
    }
}

pub open spec fn js_parts_text(ps: Seq<TemplatePart>, k: usize) -> Seq<char>
    decreases ps, 0nat,
{
    if ps.len() == 0 {
        seq![]
    } else {
        js_parts_text(ps.drop_last(), k) + match ps.last() {
            TemplatePart::Str(t) => t@,
            TemplatePart::Expr(x) => "${"@ + js_expr_text(*x, k) + "}"@,
        }
    }
}

/// One arm of a `match` chain; every arm but the first closes the previous.
pub open spec fn js_arm_text(a: MatchArm, k: usize, first: bool) -> Seq<char>
    decreases a, 0nat,
{
    ws(up1(k)) + (if first { seq![] } else { "} else "@ }) + "if ("@ + js_cond_text("__m"@, a.pattern) + ") {\n"@
        + ws(up2(k)) + "return "@ + js_expr_text(*a.body, up2(k)) + ";\n"@
}

pub open spec fn js_arms_text(arms: Seq<MatchArm>, k: usize) -> Seq<char>
    decreases arms, 0nat,
{
    if arms.len() == 0 {
        seq![]
    } else {
        js_arms_text(arms.drop_last(), k) + js_arm_text(arms.last(), k, arms.len() == 1)
    }
}

pub open spec fn js_block_text(b: Block, k: usize) -> Seq<char>
    decreases b, 0nat,
{
    "{\n"@ + js_stmts_text(b.stmts@, up1(k)) + js_tail_text(b.tail, up1(k)) + ws(k) + "}"@
}

/// A block's value, returned.
pub open spec fn js_tail_text(t: Option<Box<Expr>>, k: usize) -> Seq<char>
    decreases t, 0nat,
{
    match t {
        Some(x) => ws(k) + "return "@ + js_expr_text(*x, k) + ";\n"@,
        None => seq![],
    }
}

/// A statement expression: control flow as native statements.
pub open spec fn js_expr_stmt_text(e: Expr, k: usize) -> Seq<char>
    decreases e, 1nat,
{
    match e.kind {
        ExprKind::If { cond, then, else_ } => ws(k) + "if ("@ + js_expr_text(*cond, k) + ") "@ + js_block_text(then, k)
            + js_opt_else_text(else_, k) + "\n"@,
        ExprKind::While { cond, body } => ws(k) + "while ("@ + js_expr_text(*cond, k) + ") "@ + js_block_text(body, k)
            + "\n"@,
        ExprKind::For { pat, iter, body } => ws(k) + "for (const "@ + js_pat_text(pat) + " of "@ + js_expr_text(*iter, k)
            + ") "@ + js_block_text(body, k) + "\n"@,
        ExprKind::Loop(body) => ws(k) + "while (true) "@ + js_block_text(body, k) + "\n"@,
        _ => ws(k) + js_expr_text(e, k) + ";\n"@,
    }
}

pub open spec fn js_stmt_text(s: Stmt, k: usize) -> Seq<char>
    decreases s, 0nat,
{
    match s {
        Stmt::Let(l) => ws(k) + "let "@ + js_pat_text(l.pattern) + match l.init {
            Some(x) => " = "@ + js_expr_text(x, k),
            None => seq![],
        } + ";\n"@,
        Stmt::Expr(e, _) => js_expr_stmt_text(e, k),
        Stmt::Item(item) => js_item_text(item, k),
    }
}

pub open spec fn js_stmts_text(ss: Seq<Stmt>, k: usize) -> Seq<char>
    decreases ss, 0nat,
{
    if ss.len() == 0 {
        seq![]
    } else {
        js_stmts_text(ss.drop_last(), k) + js_stmt_text(ss.last(), k)
    }
}

pub open spec fn js_param_names(ps: Seq<Param>) -> Seq<char>
    decreases ps.len(),
{
    if ps.len() == 0 {
        seq![]
    } else if ps.len() == 1 {
        ps[0].name@
    } else {
        js_param_names(ps.drop_last()) + ", "@ + ps.last().name@
    }
}

pub open spec fn js_fn_text(f: FnDef, k: usize) -> Seq<char>
    decreases f, 0nat,
{
    ws(k) + js_vis_text(f.vis) + (if f.is_async { "async "@ } else { seq![] }) + "function "@ + f.name@ + "("@
        + js_param_names(f.params@) + ") "@ + js_block_text(f.body, k) + "\n"@
}

pub open spec fn js_field_names(fs: Seq<StructField>) -> Seq<char>
    decreases fs.len(),
{
    if fs.len() == 0 {
        seq![]
    } else if fs.len() == 1 {
        fs[0].name@
    } else {
        js_field_names(fs.drop_last()) + ", "@ + fs.last().name@
    }
}

pub open spec fn js_field_inits(fs: Seq<StructField>, k: usize) -> Seq<char>
    decreases fs.len(),
{
    if fs.len() == 0 {
        seq![]
    } else {
        js_field_inits(fs.drop_last(), k) + ws(k) + "this."@ + fs.last().name@ + " = "@ + fs.last().name@ + ";\n"@
    }
}

pub open spec fn js_struct_text(st: StructDef, k: usize) -> Seq<char> {
    ws(k) + js_vis_text(st.vis) + "class "@ + st.name@ + " {\n"@ + ws(up1(k)) + "constructor("@ + js_field_names(
        st.fields@,
    ) + ") {\n"@ + js_field_inits(st.fields@, up2(k)) + ws(up1(k)) + "}\n"@ + ws(k) + "}\n"@
}

/// `_0, _1, ...` for `n` fields.
pub open spec fn js_tuple_args(n: nat) -> Seq<char>
    decreases n,
{
    if n == 0 {
        seq![]
    } else if n == 1 {
        "_"@ + nat_digits(0)
    } else {
        js_tuple_args((n - 1) as nat) + ", "@ + "_"@ + nat_digits((n - 1) as nat)
    }
}

pub open spec fn js_variant_text(v: EnumVariant) -> Seq<char> {
    let tag = str_debug_text(v.name@);
    match v.kind {
        VariantKind::Unit => v.name@ + ": { tag: "@ + tag + " },\n"@,
        VariantKind::Tuple(fs) => v.name@ + ": ("@ + js_tuple_args(fs@.len()) + ") => ({ tag: "@ + tag + ", "@
            + js_tuple_args(fs@.len()) + " }),\n"@,
        VariantKind::Struct(fs) => v.name@ + ": ({"@ + js_field_names(fs@) + "}) => ({ tag: "@ + tag + ", "@
            + js_field_names(fs@) + " }),\n"@,
    }
}

pub open spec fn js_variants_text(vs: Seq<EnumVariant>, k: usize) -> Seq<char>
    decreases vs.len(),
{
    if vs.len() == 0 {
        seq![]
    } else {
        js_variants_text(vs.drop_last(), k) + ws(k) + js_variant_text(vs.last())
    }
}

pub open spec fn js_enum_text(en: EnumDef, k: usize) -> Seq<char> {
    ws(k) + js_vis_text(en.vis) + "const "@ + en.name@ + " = Object.freeze({\n"@ + js_variants_text(en.variants@, up1(k))
        + ws(k) + "});\n"@
}

pub open spec fn js_const_text(c: ConstItem, k: usize) -> Seq<char>
    decreases c, 0nat,
{
    ws(k) + js_vis_text(c.vis) + "const "@ + c.name@ + " = "@ + js_expr_text(c.value, k) + ";\n"@
}

/// An item's JS text (items the back end refuses have none).
pub open spec fn js_item_text(item: Item, k: usize) -> Seq<char>
    decreases item, 0nat,
{
    match item {
        Item::FnDef(f) => js_fn_text(f, k),
        Item::StructDef(s) => js_struct_text(s, k),
        Item::EnumDef(e) => js_enum_text(e, k),
        Item::Const(c) => js_const_text(c, k),
        Item::ModDecl(m) => match m.body {
            Some(b) => js_items_text(b.items@, k),
            None => seq![],
        },
        _ => seq![],
    }
}

/// Items one after another.
pub open spec fn js_items_text(items: Seq<Item>, k: usize) -> Seq<char>
    decreases items, 0nat,
{
    if items.len() == 0 {
        seq![]
    } else {
        js_items_text(items.drop_last(), k) + js_item_text(items.last(), k)
    }
}

/// A module's items, each followed by a newline.
pub open spec fn js_module_items_text(items: Seq<Item>) -> Seq<char>
    decreases items.len(),
{
    if items.len() == 0 {
        seq![]
    } else {
        js_module_items_text(items.drop_last()) + js_item_text(items.last(), 0) + "\n"@
    }
}

} // verus!
