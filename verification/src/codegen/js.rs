//! JavaScript emission: the AST as readable ES2022 source, with a source
//! map alongside.
//!
//! Output accumulates in a buffer; each `emit_*` appends to it.  A small
//! runtime preamble provides the helpers the output relies on (options,
//! results, panics).

use vstd::prelude::*;
use crate::ast::{
    Module, Item, FnDef, StructDef, EnumDef, VariantKind, ConstItem, ModDecl, Block, Stmt, Pattern,
    PatternKind, LitPat, Expr, ExprKind, UnaryOp, BinaryOp, TemplatePart, Path, MatchArm, Visibility,
    FieldInit, ClosureParam,
};
use crate::codegen::error::CodegenError;
use crate::codegen::sourcemap::SourceMap;
use crate::token::{str_debug, char_debug};
use crate::lexer::{lex_step, scan, Class};
use crate::parser::{binop_of, unary_of};
use crate::text::{string_of, push_str, push_char, i64_to_string, u64_to_string};
use crate::codegen::js_layout::{
    ws, up1, up2, js_vis_text, js_path_text, js_segments_text, js_pat_text, js_pats_text, js_cond_text, js_unary_text,
    js_else_text, js_opt_else_text, js_expr_text, js_exprs_text, js_field_text, js_fields_text, js_params_text,
    js_parts_text, js_arm_text, js_arms_text, js_block_text, js_tail_text, js_expr_stmt_text, js_stmt_text, js_stmts_text,
    js_param_names, js_fn_text, js_field_names, js_field_inits, js_struct_text, js_tuple_args, js_variant_text,
    js_variants_text, js_enum_text, js_const_text, js_item_text, js_items_text, js_module_items_text,
};

verus! {

broadcast use vstd::std_specs::vec::axiom_vec_index_decreases;

/// The runtime preamble every emitted module starts with.
pub open spec fn runtime_preamble() -> Seq<char> {
    "\n// Selvr runtime — DO NOT EDIT (generated)\nconst __selvr = {\n  Some: (v) => ({ tag: \"Some\", val: v }),\n  None: { tag: \"None\" },\n  isSome: (o) => o.tag === \"Some\",\n  isNone: (o) => o.tag === \"None\",\n  unwrap: (o) => { if (o.tag !== \"Some\") throw new Error(\"unwrap called on None\"); return o.val; },\n  Ok: (v) => ({ tag: \"Ok\", val: v }),\n  Err: (e) => ({ tag: \"Err\", err: e }),\n  panic: (msg) => { throw new Error(\"SELVR panic: \" + msg); },\n  print: (...args) => console.log(...args),\n};\n"@
}

fn preamble_text() -> (s: &'static str)
    ensures
        s@ == runtime_preamble(),
{
    "\n// Selvr runtime — DO NOT EDIT (generated)\nconst __selvr = {\n  Some: (v) => ({ tag: \"Some\", val: v }),\n  None: { tag: \"None\" },\n  isSome: (o) => o.tag === \"Some\",\n  isNone: (o) => o.tag === \"None\",\n  unwrap: (o) => { if (o.tag !== \"Some\") throw new Error(\"unwrap called on None\"); return o.val; },\n  Ok: (v) => ({ tag: \"Ok\", val: v }),\n  Err: (e) => ({ tag: \"Err\", err: e }),\n  panic: (msg) => { throw new Error(\"SELVR panic: \" + msg); },\n  print: (...args) => console.log(...args),\n};\n"
}

/// The JS operator for a binary operator (equality is strict).
pub open spec fn js_binop_text(op: BinaryOp) -> Seq<char> {
    match op {
        BinaryOp::Add => "+"@,
        BinaryOp::Sub => "-"@,
        BinaryOp::Mul => "*"@,
        BinaryOp::Div => "/"@,
        BinaryOp::Rem => "%"@,
        BinaryOp::And => "&&"@,
        BinaryOp::Or => "||"@,
        BinaryOp::Eq => "==="@,
        BinaryOp::Ne => "!=="@,
        BinaryOp::Lt => "<"@,
        BinaryOp::Le => "<="@,
        BinaryOp::Gt => ">"@,
        BinaryOp::Ge => ">="@,
        BinaryOp::BitAnd => "&"@,
        BinaryOp::BitOr => "|"@,
        BinaryOp::BitXor => "^"@,
        BinaryOp::Shl => "<<"@,
        BinaryOp::Shr => ">>"@,
    }
}

/// The JavaScript operator keeps the operator's meaning: JS writes these
/// operators as Selvr does, so its text lexes, whole, to one token that
/// denotes `op` (strict `===` / `!==` for equality).
pub proof fn lemma_js_operator_keeps_meaning(op: BinaryOp)
    ensures
        binop_of(lex_step(js_binop_text(op), 0, 0).tok) == Some(op),
        lex_step(js_binop_text(op), 0, 0).next == js_binop_text(op).len(),
{
    reveal_strlit("+");
    reveal_strlit("-");
    reveal_strlit("*");
    reveal_strlit("/");
    reveal_strlit("%");
    reveal_strlit("&");
    reveal_strlit("|");
    reveal_strlit("^");
    reveal_strlit("<<");
    reveal_strlit(">>");
    reveal_strlit("&&");
    reveal_strlit("||");
    reveal_strlit("===");
    reveal_strlit("!==");
    reveal_strlit("<");
    reveal_strlit("<=");
    reveal_strlit(">");
    reveal_strlit(">=");
    let s = js_binop_text(op);
    assert(scan(s, 0, Class::Whitespace) == 0);
}

/// The JavaScript `!` and `-` keep their meaning: their text lexes, whole,
/// to the token of the same prefix operator.
pub proof fn lemma_js_prefix_keeps_meaning(op: UnaryOp)
    requires
        !(op is Deref),
    ensures
        unary_of(lex_step(js_unary_text(op), 0, 0).tok) == Some(op),
        lex_step(js_unary_text(op), 0, 0).next == js_unary_text(op).len(),
{
    reveal_strlit("-");
    reveal_strlit("!");
    let s = js_unary_text(op);
    assert(scan(s, 0, Class::Whitespace) == 0);
}

pub fn js_binop(op: BinaryOp) -> (s: &'static str)
    ensures
        s@ == js_binop_text(op),
{
    match op {
        BinaryOp::Add => "+",
        BinaryOp::Sub => "-",
        BinaryOp::Mul => "*",
        BinaryOp::Div => "/",
        BinaryOp::Rem => "%",
        BinaryOp::And => "&&",
        BinaryOp::Or => "||",
        BinaryOp::Eq => "===",
        BinaryOp::Ne => "!==",
        BinaryOp::Lt => "<",
        BinaryOp::Le => "<=",
        BinaryOp::Gt => ">",
        BinaryOp::Ge => ">=",
        BinaryOp::BitAnd => "&",
        BinaryOp::BitOr => "|",
        BinaryOp::BitXor => "^",
        BinaryOp::Shl => "<<",
        BinaryOp::Shr => ">>",
    }
}

// ── What the JS back end handles ─────────────────────────────────────────────

/// A pattern JS destructuring can express: a name, `_`, or a tuple of such.
pub open spec fn js_pat_ok(p: Pattern) -> bool
    decreases p,
{
    match p.kind {
        PatternKind::Ident { .. } => true,
        PatternKind::Wildcard => true,
        PatternKind::Tuple(ps) => js_pats_ok(ps@),
        _ => false,
    }
}

pub open spec fn js_pats_ok(ps: Seq<Pattern>) -> bool
    decreases ps,
{
    ps.len() > 0 ==> js_pats_ok(ps.drop_last()) && js_pat_ok(ps.last())
}

/// An expression the back end can emit: no macro call, no array repeat,
/// no `break` with a value, and only simple patterns.
pub open spec fn js_expr_ok(e: Expr) -> bool
    decreases e,
{
    match e.kind {
        ExprKind::Unary { expr, .. } => js_expr_ok(*expr),
        ExprKind::Binary { lhs, rhs, .. } => js_expr_ok(*lhs) && js_expr_ok(*rhs),
        ExprKind::Assign { target, rhs } => js_expr_ok(*target) && js_expr_ok(*rhs),
        ExprKind::CompoundAssign { target, rhs, .. } => js_expr_ok(*target) && js_expr_ok(*rhs),
        ExprKind::Call { callee, args } => js_expr_ok(*callee) && js_exprs_ok(args@),
        ExprKind::MethodCall { receiver, args, .. } => js_expr_ok(*receiver) && js_exprs_ok(args@),
        ExprKind::Field { base, .. } => js_expr_ok(*base),
        ExprKind::Index { base, index } => js_expr_ok(*base) && js_expr_ok(*index),
        ExprKind::If { cond, then, else_ } => js_expr_ok(*cond) && js_block_ok(then) && match else_ {
            Some(x) => match x.kind {
                ExprKind::Block(b) => js_block_ok(b),
                _ => js_expr_ok(*x),
            },
            None => true,
        },
        ExprKind::Match { scrutinee, arms } => js_expr_ok(*scrutinee) && js_arms_ok(arms@),
        ExprKind::Block(b) => js_block_ok(b),
        ExprKind::Return { value } => match value {
            Some(v) => js_expr_ok(*v),
            None => true,
        },
        ExprKind::Break { value } => value is None,
        ExprKind::While { cond, body } => js_expr_ok(*cond) && js_block_ok(body),
        ExprKind::Loop(body) => js_block_ok(body),
        ExprKind::For { pat, iter, body } => js_pat_ok(pat) && js_expr_ok(*iter) && js_block_ok(body),
        ExprKind::Await(x) => js_expr_ok(*x),
        ExprKind::TupleLit(es) => js_exprs_ok(es@),
        ExprKind::ArrayLit(es) => js_exprs_ok(es@),
        ExprKind::StructLit { fields, .. } => js_fields_ok(fields@),
        ExprKind::Closure { params, body, .. } => js_params_ok(params@) && js_expr_ok(*body),
        ExprKind::Cast { expr, .. } => js_expr_ok(*expr),
        ExprKind::Range { start, end, .. } => (match start {
            Some(s) => js_expr_ok(*s),
            None => true,
        }) && match end {
            Some(x) => js_expr_ok(*x),
            None => true,
        },
        ExprKind::TemplateLit { parts } => js_parts_ok(parts@),
        ExprKind::MacroCall { .. } => false,
        ExprKind::ArrayRepeat { .. } => false,
        _ => true,
    }
}

pub open spec fn js_exprs_ok(es: Seq<Expr>) -> bool
    decreases es,
{
    es.len() > 0 ==> js_exprs_ok(es.drop_last()) && js_expr_ok(es.last())
}

pub open spec fn js_fields_ok(fs: Seq<FieldInit>) -> bool
    decreases fs,
{
    fs.len() > 0 ==> js_fields_ok(fs.drop_last()) && match fs.last().value {
        Some(v) => js_expr_ok(v),
        None => true,
    }
}

pub open spec fn js_params_ok(ps: Seq<ClosureParam>) -> bool
    decreases ps,
{
    ps.len() > 0 ==> js_params_ok(ps.drop_last()) && js_pat_ok(ps.last().pat)
}

pub open spec fn js_parts_ok(ps: Seq<TemplatePart>) -> bool
    decreases ps,
{
    ps.len() > 0 ==> js_parts_ok(ps.drop_last()) && match ps.last() {
        TemplatePart::Expr(x) => js_expr_ok(*x),
        TemplatePart::Str(_) => true,
    }
}

pub open spec fn js_arms_ok(arms: Seq<MatchArm>) -> bool
    decreases arms,
{
    arms.len() > 0 ==> js_arms_ok(arms.drop_last()) && js_expr_ok(*arms.last().body)
}

pub open spec fn js_block_ok(b: Block) -> bool
    decreases b,
{
    js_stmts_ok(b.stmts@) && match b.tail {
        Some(t) => js_expr_ok(*t),
        None => true,
    }
}

pub open spec fn js_stmts_ok(ss: Seq<Stmt>) -> bool
    decreases ss,
{
    ss.len() > 0 ==> js_stmts_ok(ss.drop_last()) && js_stmt_ok(ss.last())
}

pub open spec fn js_stmt_ok(s: Stmt) -> bool
    decreases s,
{
    match s {
        Stmt::Let(l) => js_pat_ok(l.pattern) && match l.init {
            Some(x) => js_expr_ok(x),
            None => true,
        },
        Stmt::Expr(e, _) => js_expr_ok(e),
        Stmt::Item(item) => js_item_ok(item),
    }
}

/// An item the back end can emit: traits, impl blocks and macro
/// definitions are not supported.
pub open spec fn js_item_ok(item: crate::ast::Item) -> bool
    decreases item,
{
    match item {
        Item::FnDef(f) => js_block_ok(f.body),
        Item::Const(c) => js_expr_ok(c.value),
        Item::ModDecl(m) => match m.body {
            Some(b) => js_items_ok(b.items@),
            None => true,
        },
        Item::StructDef(_) | Item::EnumDef(_) | Item::ImportDecl(_) | Item::TypeAlias(_) => true,
        _ => false,
    }
}

pub open spec fn js_items_ok(items: Seq<crate::ast::Item>) -> bool
    decreases items,
{
    items.len() > 0 ==> js_items_ok(items.drop_last()) && js_item_ok(items.last())
}

pub struct JsEmitter {
    buf: String,
    indent: usize,
    source_map: SourceMap,
}

proof fn lemma_app(o: Seq<char>, a: Seq<char>, p: Seq<char>)
    ensures
        (o + a) + p == o + (a + p),
{
    assert((o + a) + p =~= o + (a + p));
}

impl JsEmitter {
    /// Output only grew, at the same indentation, with the same source map.
    pub closed spec fn extends(&self, old: JsEmitter) -> bool {
        &&& old.buf@.len() <= self.buf@.len()
        &&& forall|i: int| 0 <= i < old.buf@.len() ==> #[trigger] self.buf@[i] == old.buf@[i]
        &&& self.indent == old.indent
        &&& self.source_map == old.source_map
    }

    /// `self` is `old` with `t` appended, at the same indentation and with
    /// the same source map.
    pub closed spec fn wrote(&self, old: JsEmitter, t: Seq<char>) -> bool {
        &&& self.buf@ == old.buf@ + t
        &&& self.indent == old.indent
        &&& self.source_map == old.source_map
    }

    /// The emitter's source map describes `out_file` generated from
    /// `src_file`, with one line so far.
    pub closed spec fn fresh_map(&self, out_file: Seq<char>, src_file: Seq<char>) -> bool {
        &&& self.source_map.wf()
        &&& self.source_map.file_text() == out_file
        &&& self.source_map.source_texts() == seq![src_file]
        &&& self.source_map.lines().len() == 1
    }

    pub closed spec fn output(&self) -> Seq<char> {
        self.buf@
    }

    /// The current indentation level.
    pub closed spec fn level(&self) -> usize {
        self.indent
    }

    pub closed spec fn map_wf(&self) -> bool {
        self.source_map.wf()
    }

    /// The JSON of the emitter's source map.
    pub closed spec fn map_text(&self) -> Seq<char> {
        crate::codegen::sourcemap::map_json(
            self.source_map.file_text(),
            self.source_map.source_texts(),
            self.source_map.lines(),
        )
    }

    pub fn new(out_file: &str, src_file: &str) -> (e: JsEmitter)
        ensures
            e.output() == Seq::<char>::empty(),
            e.level() == 0,
            e.fresh_map(out_file@, src_file@),
            e.map_wf(),
    {
        let srcs: [&str; 1] = [src_file];
        let sm = SourceMap::new(out_file, &srcs);
        assert(sm.source_texts() =~= seq![src_file@]);
        JsEmitter { buf: String::new(), indent: 0, source_map: sm }
    }

    /// Emits a whole module: the runtime preamble, every item followed by a
    /// newline, and a source-map reference; returns the JS and the source
    /// map's JSON.  Fails on the first item the back end does not handle.
    pub fn emit_module(self, module: &Module) -> (r: Result<(String, String), CodegenError>)
        requires
            self.output() == Seq::<char>::empty(),
            self.level() == 0,
            self.map_wf(),
        ensures
            r is Ok <==> js_items_ok(module.items@),
            r matches Ok((js, sm)) ==> {
                &&& js@ == runtime_preamble().push('\n') + js_module_items_text(module.items@)
                    + "\n//# sourceMappingURL=output.js.map\n"@
                &&& sm@ == self.map_text()
            },
    {
        let mut this = self;
        this.s(preamble_text());
        this.c('\n');
        let ghost head = this.buf@;
        assert(head =~= runtime_preamble().push('\n'));
        let mut i: usize = 0;
        assert(this.buf@ =~= head + js_module_items_text(module.items@.subrange(0, 0)));
        while i < module.items.len()
            invariant
                this.buf@ == head + js_module_items_text(module.items@.subrange(0, i as int)),
                this.source_map == self.source_map,
                this.indent == 0,
                i <= module.items@.len(),
                js_items_ok(module.items@.subrange(0, i as int)),
            decreases module.items.len() - i,
        {
            proof {
                let sub = module.items@.subrange(0, i + 1);
                assert(sub.drop_last() =~= module.items@.subrange(0, i as int));
                assert(sub.last() == module.items@[i as int]);
            }
            let ghost before = this.buf@;
            match this.emit_item(&module.items[i]) {
                Ok(()) => {},
                Err(e) => {
                    proof {
                        lemma_items_prefix_bad(module.items@, i as int);
                    }
                    return Err(e);
                },
            }
            this.s("\n");
            proof {
                let sub = module.items@.subrange(0, i + 1);
                lemma_app(head, js_module_items_text(module.items@.subrange(0, i as int)), js_item_text(module.items@[i as int], 0));
                lemma_app(head, js_module_items_text(module.items@.subrange(0, i as int)) + js_item_text(module.items@[i as int], 0), "\n"@);
            }
            i = i + 1;
        }
        assert(module.items@.subrange(0, i as int) =~= module.items@);
        let sm_json = this.source_map.to_json();
        this.s("\n//# sourceMappingURL=output.js.map\n");
        Ok((this.buf, sm_json))
    }

    fn s(&mut self, t: &str)
        ensures
            final(self).buf@ == old(self).buf@ + t@,
            final(self).extends(*old(self)),
            final(self).wrote(*old(self), t@),
    {
        push_str(&mut self.buf, t);
    }

    fn c(&mut self, ch: char)
        ensures
            final(self).buf@ == old(self).buf@.push(ch),
            final(self).extends(*old(self)),
            final(self).wrote(*old(self), seq![ch]),
    {
        push_char(&mut self.buf, ch);
        assert(self.buf@ =~= old(self).buf@ + seq![ch]);
    }

    fn write_indent(&mut self)
        ensures
            final(self).extends(*old(self)),
            final(self).wrote(*old(self), ws(old(self).indent)),
    {
        proof {
            reveal_strlit("  ");
        }
        let mut i: usize = 0;
        assert(self.buf@ =~= old(self).buf@ + Seq::new(0, |j: int| ' '));
        while i < self.indent
            invariant
                i <= self.indent,
                self.indent == old(self).indent,
                self.source_map == old(self).source_map,
                self.buf@ == old(self).buf@ + Seq::new((2 * i) as nat, |j: int| ' '),
            decreases self.indent - i,
        {
            self.s("  ");
            proof {
                reveal_strlit("  ");
                assert("  "@ =~= seq![' ', ' ']);
            }
            assert(Seq::new((2 * (i + 1)) as nat, |j: int| ' ') =~= Seq::new((2 * i) as nat, |j: int| ' ') + "  "@);
            assert(self.buf@ =~= old(self).buf@ + Seq::new((2 * (i + 1)) as nat, |j: int| ' '));
            i = i + 1;
        }
        assert(self.buf@.len() >= old(self).buf@.len());
        assert forall|j: int| 0 <= j < old(self).buf@.len() implies #[trigger] self.buf@[j] == old(self).buf@[j] by {}
    }

    fn vis(&mut self, v: Visibility)
        ensures
            final(self).extends(*old(self)),
            final(self).wrote(*old(self), js_vis_text(v)),
    {
        if v == Visibility::Public {
            self.s("export ");
        } else {
            assert(self.buf@ =~= old(self).buf@ + js_vis_text(v));
        }
    }
}

proof fn lemma_items_prefix_bad(items: Seq<crate::ast::Item>, i: int)
    requires
        0 <= i < items.len(),
        !js_item_ok(items[i]),
    ensures
        !js_items_ok(items),
    decreases items.len(),
{
    if i < items.len() - 1 {
        lemma_items_prefix_bad(items.drop_last(), i);
    }
}

proof fn lemma_exprs_prefix(s: Seq<Expr>, j: int)
    requires
        0 <= j <= s.len(),
        js_exprs_ok(s),
    ensures
        js_exprs_ok(s.subrange(0, j)),
    decreases s.len() - j,
{
    if j == s.len() {
        assert(s.subrange(0, j) =~= s);
    } else {
        lemma_exprs_prefix(s, j + 1);
        assert(s.subrange(0, j + 1).drop_last() =~= s.subrange(0, j));
    }
}

proof fn lemma_exprs_step(s: Seq<Expr>, i: int)
    requires
        0 <= i < s.len(),
    ensures
        js_exprs_ok(s.subrange(0, i + 1)) == (js_exprs_ok(s.subrange(0, i)) && js_expr_ok(s[i])),
        js_exprs_ok(s) ==> js_expr_ok(s[i]),
{
    assert(s.subrange(0, i + 1).drop_last() =~= s.subrange(0, i));
    assert(s.subrange(0, i + 1).last() == s[i]);
    if js_exprs_ok(s) {
        lemma_exprs_prefix(s, i + 1);
    }
}

proof fn lemma_pats_prefix(s: Seq<Pattern>, j: int)
    requires
        0 <= j <= s.len(),
        js_pats_ok(s),
    ensures
        js_pats_ok(s.subrange(0, j)),
    decreases s.len() - j,
{
    if j == s.len() {
        assert(s.subrange(0, j) =~= s);
    } else {
        lemma_pats_prefix(s, j + 1);
        assert(s.subrange(0, j + 1).drop_last() =~= s.subrange(0, j));
    }
}

proof fn lemma_pats_step(s: Seq<Pattern>, i: int)
    requires
        0 <= i < s.len(),
    ensures
        js_pats_ok(s.subrange(0, i + 1)) == (js_pats_ok(s.subrange(0, i)) && js_pat_ok(s[i])),
        js_pats_ok(s) ==> js_pat_ok(s[i]),
{
    assert(s.subrange(0, i + 1).drop_last() =~= s.subrange(0, i));
    assert(s.subrange(0, i + 1).last() == s[i]);
    if js_pats_ok(s) {
        lemma_pats_prefix(s, i + 1);
    }
}

proof fn lemma_fields_prefix(s: Seq<FieldInit>, j: int)
    requires
        0 <= j <= s.len(),
        js_fields_ok(s),
    ensures
        js_fields_ok(s.subrange(0, j)),
    decreases s.len() - j,
{
    if j == s.len() {
        assert(s.subrange(0, j) =~= s);
    } else {
        lemma_fields_prefix(s, j + 1);
        assert(s.subrange(0, j + 1).drop_last() =~= s.subrange(0, j));
    }
}

proof fn lemma_fields_step(s: Seq<FieldInit>, i: int)
    requires
        0 <= i < s.len(),
    ensures
        js_fields_ok(s.subrange(0, i + 1)) == (js_fields_ok(s.subrange(0, i)) && match s[i].value { Some(v) => js_expr_ok(v), None => true }),
        js_fields_ok(s) ==> match s[i].value { Some(v) => js_expr_ok(v), None => true },
{
    assert(s.subrange(0, i + 1).drop_last() =~= s.subrange(0, i));
    assert(s.subrange(0, i + 1).last() == s[i]);
    if js_fields_ok(s) {
        lemma_fields_prefix(s, i + 1);
    }
}

proof fn lemma_params_prefix(s: Seq<ClosureParam>, j: int)
    requires
        0 <= j <= s.len(),
        js_params_ok(s),
    ensures
        js_params_ok(s.subrange(0, j)),
    decreases s.len() - j,
{
    if j == s.len() {
        assert(s.subrange(0, j) =~= s);
    } else {
        lemma_params_prefix(s, j + 1);
        assert(s.subrange(0, j + 1).drop_last() =~= s.subrange(0, j));
    }
}

proof fn lemma_params_step(s: Seq<ClosureParam>, i: int)
    requires
        0 <= i < s.len(),
    ensures
        js_params_ok(s.subrange(0, i + 1)) == (js_params_ok(s.subrange(0, i)) && js_pat_ok(s[i].pat)),
        js_params_ok(s) ==> js_pat_ok(s[i].pat),
{
    assert(s.subrange(0, i + 1).drop_last() =~= s.subrange(0, i));
    assert(s.subrange(0, i + 1).last() == s[i]);
    if js_params_ok(s) {
        lemma_params_prefix(s, i + 1);
    }
}

proof fn lemma_parts_prefix(s: Seq<TemplatePart>, j: int)
    requires
        0 <= j <= s.len(),
        js_parts_ok(s),
    ensures
        js_parts_ok(s.subrange(0, j)),
    decreases s.len() - j,
{
    if j == s.len() {
        assert(s.subrange(0, j) =~= s);
    } else {
        lemma_parts_prefix(s, j + 1);
        assert(s.subrange(0, j + 1).drop_last() =~= s.subrange(0, j));
    }
}

proof fn lemma_parts_step(s: Seq<TemplatePart>, i: int)
    requires
        0 <= i < s.len(),
    ensures
        js_parts_ok(s.subrange(0, i + 1)) == (js_parts_ok(s.subrange(0, i)) && match s[i] { TemplatePart::Expr(x) => js_expr_ok(*x), TemplatePart::Str(_) => true }),
        js_parts_ok(s) ==> match s[i] { TemplatePart::Expr(x) => js_expr_ok(*x), TemplatePart::Str(_) => true },
{
    assert(s.subrange(0, i + 1).drop_last() =~= s.subrange(0, i));
    assert(s.subrange(0, i + 1).last() == s[i]);
    if js_parts_ok(s) {
        lemma_parts_prefix(s, i + 1);
    }
}

proof fn lemma_arms_prefix(s: Seq<MatchArm>, j: int)
    requires
        0 <= j <= s.len(),
        js_arms_ok(s),
    ensures
        js_arms_ok(s.subrange(0, j)),
    decreases s.len() - j,
{
    if j == s.len() {
        assert(s.subrange(0, j) =~= s);
    } else {
        lemma_arms_prefix(s, j + 1);
        assert(s.subrange(0, j + 1).drop_last() =~= s.subrange(0, j));
    }
}

proof fn lemma_arms_step(s: Seq<MatchArm>, i: int)
    requires
        0 <= i < s.len(),
    ensures
        js_arms_ok(s.subrange(0, i + 1)) == (js_arms_ok(s.subrange(0, i)) && js_expr_ok(*s[i].body)),
        js_arms_ok(s) ==> js_expr_ok(*s[i].body),
{
    assert(s.subrange(0, i + 1).drop_last() =~= s.subrange(0, i));
    assert(s.subrange(0, i + 1).last() == s[i]);
    if js_arms_ok(s) {
        lemma_arms_prefix(s, i + 1);
    }
}

proof fn lemma_stmts_prefix(s: Seq<Stmt>, j: int)
    requires
        0 <= j <= s.len(),
        js_stmts_ok(s),
    ensures
        js_stmts_ok(s.subrange(0, j)),
    decreases s.len() - j,
{
    if j == s.len() {
        assert(s.subrange(0, j) =~= s);
    } else {
        lemma_stmts_prefix(s, j + 1);
        assert(s.subrange(0, j + 1).drop_last() =~= s.subrange(0, j));
    }
}

proof fn lemma_stmts_step(s: Seq<Stmt>, i: int)
    requires
        0 <= i < s.len(),
    ensures
        js_stmts_ok(s.subrange(0, i + 1)) == (js_stmts_ok(s.subrange(0, i)) && js_stmt_ok(s[i])),
        js_stmts_ok(s) ==> js_stmt_ok(s[i]),
{
    assert(s.subrange(0, i + 1).drop_last() =~= s.subrange(0, i));
    assert(s.subrange(0, i + 1).last() == s[i]);
    if js_stmts_ok(s) {
        lemma_stmts_prefix(s, i + 1);
    }
}

proof fn lemma_items_prefix(s: Seq<crate::ast::Item>, j: int)
    requires
        0 <= j <= s.len(),
        js_items_ok(s),
    ensures
        js_items_ok(s.subrange(0, j)),
    decreases s.len() - j,
{
    if j == s.len() {
        assert(s.subrange(0, j) =~= s);
    } else {
        lemma_items_prefix(s, j + 1);
        assert(s.subrange(0, j + 1).drop_last() =~= s.subrange(0, j));
    }
}

proof fn lemma_items_step(s: Seq<crate::ast::Item>, i: int)
    requires
        0 <= i < s.len(),
    ensures
        js_items_ok(s.subrange(0, i + 1)) == (js_items_ok(s.subrange(0, i)) && js_item_ok(s[i])),
        js_items_ok(s) ==> js_item_ok(s[i]),
{
    assert(s.subrange(0, i + 1).drop_last() =~= s.subrange(0, i));
    assert(s.subrange(0, i + 1).last() == s[i]);
    if js_items_ok(s) {
        lemma_items_prefix(s, i + 1);
    }
}

impl JsEmitter {
    fn emit_item(&mut self, item: &Item) -> (r: Result<(), CodegenError>)
        ensures
            final(self).extends(*old(self)),
            r is Ok <==> js_item_ok(*item),
            r is Ok ==> final(self).wrote(*old(self), js_item_text(*item, old(self).indent)),
        decreases item, 0nat,
    {
        match item {
            Item::FnDef(f) => self.emit_fn(f),
            Item::StructDef(s) => {
                self.emit_struct(s);
                Ok(())
            },
            Item::EnumDef(e) => {
                self.emit_enum(e);
                Ok(())
            },
            Item::Const(c) => self.emit_const(c),
            Item::ImportDecl(_) => {
                assert(self.buf@ =~= old(self).buf@ + js_item_text(*item, self.indent));
                Ok(())
            },
            Item::ModDecl(m) => self.emit_mod(m),
            Item::TypeAlias(_) => {
                assert(self.buf@ =~= old(self).buf@ + js_item_text(*item, self.indent));
                Ok(())
            },
            Item::TraitDef(_) => Err(CodegenError::Unsupported(string_of("Discriminant(3)"))),
            Item::ImplBlock(_) => Err(CodegenError::Unsupported(string_of("Discriminant(4)"))),
            Item::MacroDef(_) => Err(CodegenError::Unsupported(string_of("Discriminant(9)"))),
        }
    }

    fn emit_fn(&mut self, f: &FnDef) -> (r: Result<(), CodegenError>)
        ensures
            final(self).extends(*old(self)),
            r is Ok <==> js_block_ok(f.body),
            r is Ok ==> final(self).wrote(*old(self), js_fn_text(*f, old(self).indent)),
        decreases f, 0nat,
    {
        let ghost o = self.buf@;
        let ghost k = self.indent;
        self.write_indent();
        let ghost mut acc = ws(k);
        self.vis(f.vis);
        proof { lemma_app(o, acc, js_vis_text(f.vis)); acc = acc + js_vis_text(f.vis); }
        let ghost pa: Seq<char> = if f.is_async { "async "@ } else { seq![] };
        if f.is_async {
            self.s("async ");
        } else {
            assert(self.buf@ =~= self.buf@ + pa);
        }
        proof { lemma_app(o, acc, pa); acc = acc + pa; }
        self.s("function ");
        proof { lemma_app(o, acc, "function "@); acc = acc + "function "@; }
        self.s(f.name.as_str());
        proof { lemma_app(o, acc, f.name@); acc = acc + f.name@; }
        self.s("(");
        proof { lemma_app(o, acc, "("@); acc = acc + "("@; }
        let ghost open = self.buf@;
        let mut i: usize = 0;
        assert(self.buf@ =~= open + js_param_names(f.params@.subrange(0, 0)));
        while i < f.params.len()
            invariant
                i <= f.params@.len(),
                self.indent == k,
                self.source_map == old(self).source_map,
                open == o + acc,
                o == old(self).buf@,
                k == old(self).indent,
                self.buf@ == open + js_param_names(f.params@.subrange(0, i as int)),
            decreases f.params.len() - i,
        {
            if i > 0 {
                self.s(", ");
            }
            self.s(f.params[i].name.as_str());
            proof {
                let sub = f.params@.subrange(0, i + 1);
                assert(sub.drop_last() =~= f.params@.subrange(0, i as int));
                assert(sub.last() == f.params@[i as int]);
                if i == 0 {
                    assert(sub.len() == 1);
                }
                assert(self.buf@ =~= open + js_param_names(sub));
            }
            i = i + 1;
        }
        assert(f.params@.subrange(0, i as int) =~= f.params@);
        proof { lemma_app(o, acc, js_param_names(f.params@)); acc = acc + js_param_names(f.params@); }
        self.s(") ");
        proof { lemma_app(o, acc, ") "@); acc = acc + ") "@; }
        self.emit_block(&f.body)?;
        proof { lemma_app(o, acc, js_block_text(f.body, k)); acc = acc + js_block_text(f.body, k); }
        self.s("\n");
        proof { lemma_app(o, acc, "\n"@); acc = acc + "\n"@; }
        assert(acc == js_fn_text(*f, k));
        Ok(())
    }

    /// Appends `"a, b, c"`: the names of `fs` joined by `, `.
    fn push_field_names(out: &mut String, fs: &Vec<crate::ast::StructField>)
        ensures
            final(out)@ == old(out)@ + js_field_names(fs@),
    {
        let mut i: usize = 0;
        assert(out@ =~= old(out)@ + js_field_names(fs@.subrange(0, 0)));
        while i < fs.len()
            invariant
                i <= fs@.len(),
                out@ == old(out)@ + js_field_names(fs@.subrange(0, i as int)),
            decreases fs.len() - i,
        {
            if i > 0 {
                push_str(out, ", ");
            }
            push_str(out, fs[i].name.as_str());
            proof {
                let sub = fs@.subrange(0, i + 1);
                assert(sub.drop_last() =~= fs@.subrange(0, i as int));
                assert(sub.last() == fs@[i as int]);
                if i == 0 {
                    assert(sub.len() == 1);
                }
                assert(out@ =~= old(out)@ + js_field_names(sub));
            }
            i = i + 1;
        }
        assert(fs@.subrange(0, i as int) =~= fs@);
    }

    fn emit_struct(&mut self, st: &StructDef)
        ensures
            final(self).extends(*old(self)),
            final(self).wrote(*old(self), js_struct_text(*st, old(self).indent)),
    {
        let saved = self.indent;
        let ghost o = self.buf@;
        self.write_indent();
        let ghost mut acc = ws(saved);
        self.vis(st.vis);
        proof { lemma_app(o, acc, js_vis_text(st.vis)); acc = acc + js_vis_text(st.vis); }
        self.s("class ");
        proof { lemma_app(o, acc, "class "@); acc = acc + "class "@; }
        self.s(st.name.as_str());
        proof { lemma_app(o, acc, st.name@); acc = acc + st.name@; }
        self.s(" {\n");
        proof { lemma_app(o, acc, " {\n"@); acc = acc + " {\n"@; }
        self.indent = saved.saturating_add(1);
        self.write_indent();
        proof { lemma_app(o, acc, ws(up1(saved))); acc = acc + ws(up1(saved)); }
        self.s("constructor(");
        proof { lemma_app(o, acc, "constructor("@); acc = acc + "constructor("@; }
        let mut names = String::new();
        JsEmitter::push_field_names(&mut names, &st.fields);
        assert(names@ =~= js_field_names(st.fields@));
        self.s(names.as_str());
        proof { lemma_app(o, acc, js_field_names(st.fields@)); acc = acc + js_field_names(st.fields@); }
        self.s(") {\n");
        proof { lemma_app(o, acc, ") {\n"@); acc = acc + ") {\n"@; }
        self.indent = saved.saturating_add(2);
        let ghost k2 = up2(saved);
        let ghost open = self.buf@;
        let mut k: usize = 0;
        assert(self.buf@ =~= open + js_field_inits(st.fields@.subrange(0, 0), k2));
        while k < st.fields.len()
            invariant
                k <= st.fields@.len(),
                self.indent == k2,
                self.source_map == old(self).source_map,
                saved == old(self).indent,
                o == old(self).buf@,
                open == o + acc,
                k2 == up2(saved),
                self.buf@ == open + js_field_inits(st.fields@.subrange(0, k as int), k2),
            decreases st.fields.len() - k,
        {
            let ghost before = self.buf@;
            self.write_indent();
            self.s("this.");
            self.s(st.fields[k].name.as_str());
            self.s(" = ");
            self.s(st.fields[k].name.as_str());
            self.s(";\n");
            proof {
                let sub = st.fields@.subrange(0, k + 1);
                assert(sub.drop_last() =~= st.fields@.subrange(0, k as int));
                assert(sub.last() == st.fields@[k as int]);
                assert(self.buf@ =~= open + js_field_inits(sub, k2));
            }
            k = k + 1;
        }
        assert(st.fields@.subrange(0, k as int) =~= st.fields@);
        proof { lemma_app(o, acc, js_field_inits(st.fields@, k2)); acc = acc + js_field_inits(st.fields@, k2); }
        self.indent = saved.saturating_add(1);
        self.write_indent();
        proof { lemma_app(o, acc, ws(up1(saved))); acc = acc + ws(up1(saved)); }
        self.s("}\n");
        proof { lemma_app(o, acc, "}\n"@); acc = acc + "}\n"@; }
        self.indent = saved;
        self.write_indent();
        proof { lemma_app(o, acc, ws(saved)); acc = acc + ws(saved); }
        self.s("}\n");
        proof { lemma_app(o, acc, "}\n"@); acc = acc + "}\n"@; }
        assert(acc == js_struct_text(*st, saved));
        assert(self.buf@.len() >= old(self).buf@.len());
        assert forall|j: int| 0 <= j < old(self).buf@.len() implies #[trigger] self.buf@[j] == old(self).buf@[j] by {}
    }

    #[verifier::rlimit(100)]
    fn emit_enum(&mut self, en: &EnumDef)
        ensures
            final(self).extends(*old(self)),
            final(self).wrote(*old(self), js_enum_text(*en, old(self).indent)),
    {
        let saved = self.indent;
        let ghost o = self.buf@;
        self.write_indent();
        let ghost mut acc = ws(saved);
        self.vis(en.vis);
        proof { lemma_app(o, acc, js_vis_text(en.vis)); acc = acc + js_vis_text(en.vis); }
        self.s("const ");
        proof { lemma_app(o, acc, "const "@); acc = acc + "const "@; }
        self.s(en.name.as_str());
        proof { lemma_app(o, acc, en.name@); acc = acc + en.name@; }
        self.s(" = Object.freeze({\n");
        proof { lemma_app(o, acc, " = Object.freeze({\n"@); acc = acc + " = Object.freeze({\n"@; }
        self.indent = saved.saturating_add(1);
        let ghost k1 = up1(saved);
        let ghost open = self.buf@;
        let mut i: usize = 0;
        assert(self.buf@ =~= open + js_variants_text(en.variants@.subrange(0, 0), k1));
        while i < en.variants.len()
            invariant
                i <= en.variants@.len(),
                self.indent == k1,
                self.source_map == old(self).source_map,
                saved == old(self).indent,
                o == old(self).buf@,
                open == o + acc,
                k1 == up1(saved),
                self.buf@ == open + js_variants_text(en.variants@.subrange(0, i as int), k1),
            decreases en.variants.len() - i,
        {
            let v = &en.variants[i];
            let ghost before = self.buf@;
            self.write_indent();
            let ghost mid = self.buf@;
            let tag = str_debug(v.name.as_str());
            match &v.kind {
                VariantKind::Unit => {
                    self.s(v.name.as_str());
                    self.s(": { tag: ");
                    self.s(tag.as_str());
                    self.s(" },\n");
                    assert(self.buf@ =~= mid + js_variant_text(*v));
                },
                VariantKind::Tuple(fields) => {
                    let mut args = String::new();
                    let mut k: usize = 0;
                    while k < fields.len()
                        invariant
                            k <= fields@.len(),
                            args@ == js_tuple_args(k as nat),
                        decreases fields.len() - k,
                    {
                        if k > 0 {
                            push_str(&mut args, ", ");
                        }
                        push_str(&mut args, "_");
                        push_str(&mut args, u64_to_string(k as u64).as_str());
                        k = k + 1;
                    }
                    self.s(v.name.as_str());
                    self.s(": (");
                    self.s(args.as_str());
                    self.s(") => ({ tag: ");
                    self.s(tag.as_str());
                    self.s(", ");
                    self.s(args.as_str());
                    self.s(" }),\n");
                    assert(self.buf@ =~= mid + js_variant_text(*v));
                },
                VariantKind::Struct(fields) => {
                    let mut names = String::new();
                    JsEmitter::push_field_names(&mut names, fields);
                    assert(names@ =~= js_field_names(fields@));
                    self.s(v.name.as_str());
                    self.s(": ({");
                    self.s(names.as_str());
                    self.s("}) => ({ tag: ");
                    self.s(tag.as_str());
                    self.s(", ");
                    self.s(names.as_str());
                    self.s(" }),\n");
                    assert(self.buf@ =~= mid + js_variant_text(*v));
                },
            }
            assert(self.buf@ =~= mid + js_variant_text(*v));
            proof {
                let sub = en.variants@.subrange(0, i + 1);
                assert(sub.drop_last() =~= en.variants@.subrange(0, i as int));
                assert(sub.last() == en.variants@[i as int]);
                assert(self.buf@ =~= open + js_variants_text(sub, k1));
            }
            i = i + 1;
        }
        assert(en.variants@.subrange(0, i as int) =~= en.variants@);
        proof { lemma_app(o, acc, js_variants_text(en.variants@, k1)); acc = acc + js_variants_text(en.variants@, k1); }
        self.indent = saved;
        self.write_indent();
        proof { lemma_app(o, acc, ws(saved)); acc = acc + ws(saved); }
        self.s("});\n");
        proof { lemma_app(o, acc, "});\n"@); acc = acc + "});\n"@; }
        assert(acc == js_enum_text(*en, saved));
        assert(self.buf@.len() >= old(self).buf@.len());
        assert forall|j: int| 0 <= j < old(self).buf@.len() implies #[trigger] self.buf@[j] == old(self).buf@[j] by {}
    }

    fn emit_const(&mut self, c: &ConstItem) -> (r: Result<(), CodegenError>)
        ensures
            final(self).extends(*old(self)),
            r is Ok <==> js_expr_ok(c.value),
            r is Ok ==> final(self).wrote(*old(self), js_const_text(*c, old(self).indent)),
        decreases c, 0nat,
    {
        let ghost o = self.buf@;
        let ghost k = self.indent;
        self.write_indent();
        let ghost mut acc = ws(k);
        self.vis(c.vis);
        proof { lemma_app(o, acc, js_vis_text(c.vis)); acc = acc + js_vis_text(c.vis); }
        self.s("const ");
        proof { lemma_app(o, acc, "const "@); acc = acc + "const "@; }
        self.s(c.name.as_str());
        proof { lemma_app(o, acc, c.name@); acc = acc + c.name@; }
        self.s(" = ");
        proof { lemma_app(o, acc, " = "@); acc = acc + " = "@; }
        self.emit_expr(&c.value)?;
        proof { lemma_app(o, acc, js_expr_text(c.value, k)); acc = acc + js_expr_text(c.value, k); }
        self.s(";\n");
        proof { lemma_app(o, acc, ";\n"@); acc = acc + ";\n"@; }
        assert(acc == js_const_text(*c, k));
        Ok(())
    }

    fn emit_mod(&mut self, m: &ModDecl) -> (r: Result<(), CodegenError>)
        ensures
            final(self).extends(*old(self)),
            r is Ok <==> match m.body { Some(b) => js_items_ok(b.items@), None => true },
            r is Ok ==> final(self).wrote(*old(self), match m.body { Some(b) => js_items_text(b.items@, old(self).indent), None => Seq::<char>::empty() }),
        decreases m, 0nat,
    {
        let ghost k = self.indent;
        if let Some(body) = &m.body {
            let mut i: usize = 0;
            assert(self.buf@ =~= old(self).buf@ + js_items_text(body.items@.subrange(0, 0), k));
            while i < body.items.len()
                invariant
                    self.extends(*old(self)),
                    self.indent == k,
                    k == old(self).indent,
                    m.body == Some(*body),
                    i <= body.items@.len(),
                    js_items_ok(body.items@.subrange(0, i as int)),
                    self.buf@ == old(self).buf@ + js_items_text(body.items@.subrange(0, i as int), k),
                decreases body.items.len() - i,
            {
                proof {
                    lemma_items_step(body.items@, i as int);
                }
                assert(decreases_to!(m => body.items@[i as int])) by {
                    assert(decreases_to!(m => m.body));
                    assert(decreases_to!(m.body => m.body->Some_0));
                    assert(decreases_to!(m.body->Some_0 => m.body->Some_0.items));
                    assert(decreases_to!(m.body->Some_0.items => m.body->Some_0.items@));
                }
                self.emit_item(&body.items[i])?;
                proof {
                    let sub = body.items@.subrange(0, i + 1);
                    assert(sub.drop_last() =~= body.items@.subrange(0, i as int));
                    assert(sub.last() == body.items@[i as int]);
                    lemma_app(old(self).buf@, js_items_text(body.items@.subrange(0, i as int), k), js_item_text(body.items@[i as int], k));
                }
                i = i + 1;
            }
            assert(body.items@.subrange(0, i as int) =~= body.items@);
        } else {
            assert(self.buf@ =~= old(self).buf@ + Seq::<char>::empty());
        }
        Ok(())
    }

    fn emit_block(&mut self, block: &Block) -> (r: Result<(), CodegenError>)
        ensures
            final(self).extends(*old(self)),
            r is Ok <==> js_block_ok(*block),
            r is Ok ==> final(self).wrote(*old(self), js_block_text(*block, old(self).indent)),
        decreases block, 0nat,
    {
        let saved = self.indent;
        let ghost o = self.buf@;
        self.s("{\n");
        let ghost mut acc: Seq<char> = "{\n"@;
        self.indent = saved.saturating_add(1);
        let ghost k1 = up1(saved);
        let ghost open = self.buf@;
        let mut i: usize = 0;
        assert(self.buf@ =~= open + js_stmts_text(block.stmts@.subrange(0, 0), k1));
        while i < block.stmts.len()
            invariant
                old(self).buf@.len() <= self.buf@.len(),
                forall|k: int| 0 <= k < old(self).buf@.len() ==> #[trigger] self.buf@[k] == old(self).buf@[k],
                self.source_map == old(self).source_map,
                saved == old(self).indent,
                self.indent == k1,
                k1 == up1(saved),
                o == old(self).buf@,
                open == o + acc,
                i <= block.stmts@.len(),
                js_stmts_ok(block.stmts@.subrange(0, i as int)),
                self.buf@ == open + js_stmts_text(block.stmts@.subrange(0, i as int), k1),
            decreases block.stmts.len() - i,
        {
            proof {
                lemma_stmts_step(block.stmts@, i as int);
            }
            assert(decreases_to!(block => block.stmts@[i as int])) by {
                assert(decreases_to!(block => block.stmts));
                assert(decreases_to!(block.stmts => block.stmts@));
            }
            match self.emit_stmt(&block.stmts[i]) {
                Ok(()) => {},
                Err(e) => {
                    self.indent = saved;
                    return Err(e);
                },
            }
            proof {
                let sub = block.stmts@.subrange(0, i + 1);
                assert(sub.drop_last() =~= block.stmts@.subrange(0, i as int));
                assert(sub.last() == block.stmts@[i as int]);
                lemma_app(open, js_stmts_text(block.stmts@.subrange(0, i as int), k1), js_stmt_text(block.stmts@[i as int], k1));
            }
            i = i + 1;
        }
        assert(block.stmts@.subrange(0, i as int) =~= block.stmts@);
        proof { lemma_app(o, acc, js_stmts_text(block.stmts@, k1)); acc = acc + js_stmts_text(block.stmts@, k1); }
        let ghost mid = self.buf@;
        if let Some(tail) = &block.tail {
            self.write_indent();
            self.s("return ");
            assert(decreases_to!(block => **tail)) by {
                assert(decreases_to!(block => block.tail));
            }
            match self.emit_expr(tail) {
                Ok(()) => {},
                Err(e) => {
                    self.indent = saved;
                    return Err(e);
                },
            }
            self.s(";\n");
        }
        let ghost tail_text: Seq<char> = js_tail_text(block.tail, k1);
        assert(self.buf@ =~= mid + tail_text);
        proof { lemma_app(o, acc, tail_text); acc = acc + tail_text; }
        self.indent = saved;
        self.write_indent();
        proof { lemma_app(o, acc, ws(saved)); acc = acc + ws(saved); }
        self.s("}");
        proof { lemma_app(o, acc, "}"@); acc = acc + "}"@; }
        assert(acc == js_block_text(*block, saved));
        Ok(())
    }

    fn emit_stmt(&mut self, st: &Stmt) -> (r: Result<(), CodegenError>)
        ensures
            final(self).extends(*old(self)),
            r is Ok <==> js_stmt_ok(*st),
            r is Ok ==> final(self).wrote(*old(self), js_stmt_text(*st, old(self).indent)),
        decreases st, 0nat,
    {
        let ghost k = self.indent;
        match st {
            Stmt::Let(l) => {
                self.write_indent();
                self.s("let ");
                assert(decreases_to!(st => st->Let_0));
                self.emit_pattern(&l.pattern)?;
                let ghost m1 = self.buf@;
                if let Some(init) = &l.init {
                    self.s(" = ");
                    assert(decreases_to!(st->Let_0 => st->Let_0.init));
                    self.emit_expr(init)?;
                }
                assert(self.buf@ =~= m1 + match l.init {
                    Some(x) => " = "@ + js_expr_text(x, k),
                    None => Seq::<char>::empty(),
                });
                self.s(";\n");
                assert(self.buf@ =~= old(self).buf@ + js_stmt_text(*st, k));
                Ok(())
            },
            Stmt::Expr(e, _) => self.emit_expr_stmt(e),
            Stmt::Item(item) => self.emit_item(item),
        }
    }

    /// Control flow at statement level is emitted as native JS statements.
    #[verifier::rlimit(100)]
    fn emit_expr_stmt(&mut self, e: &Expr) -> (r: Result<(), CodegenError>)
        ensures
            final(self).extends(*old(self)),
            r is Ok <==> js_expr_ok(*e),
            r is Ok ==> final(self).wrote(*old(self), js_expr_stmt_text(*e, old(self).indent)),
        decreases e, 6nat,
    {
        let ghost k = self.indent;
        assert(decreases_to!(e => e.kind));
        match &e.kind {
            ExprKind::If { cond, then, else_ } => {
                self.write_indent();
                self.s("if (");
                self.emit_expr(cond)?;
                self.s(") ");
                self.emit_block(then)?;
                let ghost m1 = self.buf@;
                if let Some(el) = else_ {
                    self.s(" else ");
                    assert(decreases_to!(e.kind => e.kind->If_else_));
                    let ghost m2 = self.buf@;
                    match &el.kind {
                        ExprKind::Block(b) => {
                            assert(decreases_to!(**el => el.kind));
                            self.emit_block(b)?
                        },
                        _ => self.emit_expr(el)?,
                    }
                    assert(self.buf@ =~= m2 + js_else_text(**el, k));
                }
                assert(self.buf@ =~= m1 + js_opt_else_text(*else_, k));
                self.s("\n");
                assert(self.buf@ =~= old(self).buf@ + js_expr_stmt_text(*e, k));
                Ok(())
            },
            ExprKind::While { cond, body } => {
                self.write_indent();
                self.s("while (");
                self.emit_expr(cond)?;
                self.s(") ");
                self.emit_block(body)?;
                self.s("\n");
                assert(self.buf@ =~= old(self).buf@ + js_expr_stmt_text(*e, k));
                Ok(())
            },
            ExprKind::For { pat, iter, body } => {
                self.write_indent();
                self.s("for (const ");
                self.emit_pattern(pat)?;
                self.s(" of ");
                self.emit_expr(iter)?;
                self.s(") ");
                self.emit_block(body)?;
                self.s("\n");
                assert(self.buf@ =~= old(self).buf@ + js_expr_stmt_text(*e, k));
                Ok(())
            },
            ExprKind::Loop(body) => {
                self.write_indent();
                self.s("while (true) ");
                self.emit_block(body)?;
                self.s("\n");
                assert(self.buf@ =~= old(self).buf@ + js_expr_stmt_text(*e, k));
                Ok(())
            },
            _ => {
                self.write_indent();
                self.emit_expr(e)?;
                self.s(";\n");
                assert(self.buf@ =~= old(self).buf@ + js_expr_stmt_text(*e, k));
                Ok(())
            },
        }
    }

    fn emit_pattern(&mut self, pat: &Pattern) -> (r: Result<(), CodegenError>)
        ensures
            final(self).extends(*old(self)),
            r is Ok <==> js_pat_ok(*pat),
            r is Ok ==> final(self).wrote(*old(self), js_pat_text(*pat)),
        decreases pat, 0nat,
    {
        match &pat.kind {
            PatternKind::Ident { name, .. } => {
                self.s(name.as_str());
                Ok(())
            },
            PatternKind::Wildcard => {
                self.s("_");
                Ok(())
            },
            PatternKind::Tuple(pats) => {
                self.s("[");
                let ghost open = self.buf@;
                let mut i: usize = 0;
                assert(self.buf@ =~= open + js_pats_text(pats@.subrange(0, 0)));
                while i < pats.len()
                    invariant
                        self.extends(*old(self)),
                        pat.kind == PatternKind::Tuple(*pats),
                        i <= pats@.len(),
                        js_pats_ok(pats@.subrange(0, i as int)),
                        open == old(self).buf@ + "["@,
                        self.buf@ == open + js_pats_text(pats@.subrange(0, i as int)),
                    decreases pats.len() - i,
                {
                    proof {
                        lemma_pats_step(pats@, i as int);
                    }
                    if i > 0 {
                        self.s(", ");
                    }
                    assert(decreases_to!(pat => pats@[i as int])) by {
                        assert(decreases_to!(pat => pat.kind));
                        assert(decreases_to!(pat.kind => pat.kind->Tuple_0));
                        assert(decreases_to!(pat.kind->Tuple_0 => pat.kind->Tuple_0@));
                    }
                    self.emit_pattern(&pats[i])?;
                    proof {
                        let sub = pats@.subrange(0, i + 1);
                        assert(sub.drop_last() =~= pats@.subrange(0, i as int));
                        assert(sub.last() == pats@[i as int]);
                        if i == 0 {
                            assert(sub.len() == 1);
                        }
                        assert(self.buf@ =~= open + js_pats_text(sub));
                    }
                    i = i + 1;
                }
                assert(pats@.subrange(0, i as int) =~= pats@);
                self.s("]");
                assert(self.buf@ =~= old(self).buf@ + js_pat_text(*pat));
                Ok(())
            },
            _ => Err(CodegenError::Unsupported(string_of("complex pattern in let"))),
        }
    }

    fn emit_exprs(&mut self, es: &Vec<Expr>) -> (r: Result<(), CodegenError>)
        ensures
            final(self).extends(*old(self)),
            r is Ok <==> js_exprs_ok(es@),
            r is Ok ==> final(self).wrote(*old(self), js_exprs_text(es@, old(self).indent)),
        decreases es, 0nat,
    {
        let ghost k = self.indent;
        let mut i: usize = 0;
        assert(self.buf@ =~= old(self).buf@ + js_exprs_text(es@.subrange(0, 0), k));
        while i < es.len()
            invariant
                self.extends(*old(self)),
                k == old(self).indent,
                i <= es@.len(),
                js_exprs_ok(es@.subrange(0, i as int)),
                self.buf@ == old(self).buf@ + js_exprs_text(es@.subrange(0, i as int), k),
            decreases es.len() - i,
        {
            proof {
                lemma_exprs_step(es@, i as int);
            }
            if i > 0 {
                self.s(", ");
            }
            assert(decreases_to!(es => es@[i as int])) by {
                assert(decreases_to!(es => es@));
            }
            self.emit_expr(&es[i])?;
            proof {
                let sub = es@.subrange(0, i + 1);
                assert(sub.drop_last() =~= es@.subrange(0, i as int));
                assert(sub.last() == es@[i as int]);
                if i == 0 {
                    assert(sub.len() == 1);
                }
                assert(self.buf@ =~= old(self).buf@ + js_exprs_text(sub, k));
            }
            i = i + 1;
        }
        assert(es@.subrange(0, i as int) =~= es@);
        Ok(())
    }

    fn emit_path(&mut self, path: &Path)
        ensures
            final(self).extends(*old(self)),
            final(self).wrote(*old(self), js_path_text(*path)),
    {
        let mut i: usize = 0;
        assert(self.buf@ =~= old(self).buf@ + js_segments_text(path.segments@.subrange(0, 0)));
        while i < path.segments.len()
            invariant
                self.extends(*old(self)),
                i <= path.segments@.len(),
                self.buf@ == old(self).buf@ + js_segments_text(path.segments@.subrange(0, i as int)),
            decreases path.segments.len() - i,
        {
            if i > 0 {
                self.s(".");
            }
            self.s(path.segments[i].name.as_str());
            proof {
                let sub = path.segments@.subrange(0, i + 1);
                assert(sub.drop_last() =~= path.segments@.subrange(0, i as int));
                assert(sub.last() == path.segments@[i as int]);
                if i == 0 {
                    assert(sub.len() == 1);
                }
                assert(self.buf@ =~= old(self).buf@ + js_segments_text(sub));
            }
            i = i + 1;
        }
        assert(path.segments@.subrange(0, i as int) =~= path.segments@);
    }
}

impl JsEmitter {
    fn emit_expr(&mut self, expr: &Expr) -> (r: Result<(), CodegenError>)
        ensures
            final(self).extends(*old(self)),
            r is Ok <==> js_expr_ok(*expr),
            r is Ok ==> final(self).wrote(*old(self), js_expr_text(*expr, old(self).indent)),
        decreases expr, 5nat,
    {
        match &expr.kind {
            ExprKind::IntLit(v) => {
                let t = i64_to_string(*v);
                self.s(t.as_str());
                Ok(())
            },
            ExprKind::FloatLit(v) => {
                self.s(v.as_str());
                Ok(())
            },
            ExprKind::BoolLit(v) => {
                self.s(if *v { "true" } else { "false" });
                Ok(())
            },
            ExprKind::StrLit(v) => {
                let t = str_debug(v.as_str());
                self.s(t.as_str());
                Ok(())
            },
            ExprKind::CharLit(v) => {
                let t = char_debug(*v);
                self.s(t.as_str());
                Ok(())
            },
            ExprKind::Path(p) => {
                self.emit_path(p);
                Ok(())
            },
            ExprKind::Continue => {
                self.s("continue");
                Ok(())
            },
            ExprKind::Break { value } => {
                self.s("break");
                if value.is_some() {
                    return Err(CodegenError::Unsupported(string_of("break with value in JS backend (use loop)")));
                }
                Ok(())
            },
            ExprKind::MacroCall { name, .. } => {
                let mut m = string_of("macro `");
                push_str(&mut m, name.as_str());
                push_str(&mut m, "!` not expanded");
                Err(CodegenError::Unsupported(m))
            },
            ExprKind::ArrayRepeat { .. } => Err(CodegenError::Unsupported(string_of("expression variant"))),
            ExprKind::Unary { .. } | ExprKind::Binary { .. } | ExprKind::Assign { .. } | ExprKind::CompoundAssign { .. }
            | ExprKind::Field { .. } | ExprKind::Index { .. } | ExprKind::Await(_) | ExprKind::Cast { .. } => self.emit_operator(expr),
            ExprKind::If { .. } | ExprKind::Match { .. } | ExprKind::Block(_) | ExprKind::Return { .. } | ExprKind::While { .. }
            | ExprKind::Loop(_) | ExprKind::For { .. } => self.emit_control(expr),
            _ => self.emit_compound(expr),
        }
    }

    #[verifier::rlimit(100)]
    fn emit_operator(&mut self, expr: &Expr) -> (r: Result<(), CodegenError>)
        requires
            expr.kind is Unary || expr.kind is Binary || expr.kind is Assign || expr.kind is CompoundAssign
                || expr.kind is Field || expr.kind is Index || expr.kind is Await || expr.kind is Cast,
        ensures
            final(self).extends(*old(self)),
            r is Ok <==> js_expr_ok(*expr),
            r is Ok ==> final(self).wrote(*old(self), js_expr_text(*expr, old(self).indent)),
        decreases expr, 4nat,
    {
        let ghost k = self.indent;
        match &expr.kind {
            ExprKind::Unary { op, expr: inner } => {
                self.s(
                    match op {
                        UnaryOp::Not => "!",
                        UnaryOp::Neg => "-",
                        UnaryOp::Deref => "",
                    },
                );
                self.s("(");
                self.emit_expr(inner)?;
                self.s(")");
                assert(self.buf@ =~= old(self).buf@ + js_expr_text(*expr, k));
                Ok(())
            },
            ExprKind::Binary { op, lhs, rhs } => {
                self.s("(");
                self.emit_expr(lhs)?;
                self.s(" ");
                self.s(js_binop(*op));
                self.s(" ");
                self.emit_expr(rhs)?;
                self.s(")");
                assert(self.buf@ =~= old(self).buf@ + js_expr_text(*expr, k));
                Ok(())
            },
            ExprKind::Assign { target, rhs } => {
                self.emit_expr(target)?;
                self.s(" = ");
                self.emit_expr(rhs)?;
                assert(self.buf@ =~= old(self).buf@ + js_expr_text(*expr, k));
                Ok(())
            },
            ExprKind::CompoundAssign { op, target, rhs } => {
                self.emit_expr(target)?;
                self.s(" ");
                self.s(js_binop(*op));
                self.s("= ");
                self.emit_expr(rhs)?;
                assert(self.buf@ =~= old(self).buf@ + js_expr_text(*expr, k));
                Ok(())
            },
            ExprKind::Field { base, field } => {
                self.emit_expr(base)?;
                self.s(".");
                self.s(field.as_str());
                assert(self.buf@ =~= old(self).buf@ + js_expr_text(*expr, k));
                Ok(())
            },
            ExprKind::Index { base, index } => {
                self.emit_expr(base)?;
                self.s("[");
                self.emit_expr(index)?;
                self.s("]");
                assert(self.buf@ =~= old(self).buf@ + js_expr_text(*expr, k));
                Ok(())
            },
            ExprKind::Await(inner) => {
                self.s("(await ");
                self.emit_expr(inner)?;
                self.s(")");
                assert(self.buf@ =~= old(self).buf@ + js_expr_text(*expr, k));
                Ok(())
            },
            ExprKind::Cast { expr: inner, .. } => self.emit_expr(inner),
            _ => Ok(()),
        }
    }

    #[verifier::rlimit(100)]
    fn emit_control(&mut self, expr: &Expr) -> (r: Result<(), CodegenError>)
        requires
            expr.kind is If || expr.kind is Match || expr.kind is Block || expr.kind is Return || expr.kind is While
                || expr.kind is Loop || expr.kind is For,
        ensures
            final(self).extends(*old(self)),
            r is Ok <==> js_expr_ok(*expr),
            r is Ok ==> final(self).wrote(*old(self), js_expr_text(*expr, old(self).indent)),
        decreases expr, 4nat,
    {
        let ghost k = self.indent;
        assert(decreases_to!(expr => expr.kind));
        match &expr.kind {
            ExprKind::If { cond, then, else_ } => {
                self.s("(() => { if (");
                self.emit_expr(cond)?;
                self.s(") ");
                self.emit_block(then)?;
                let ghost m1 = self.buf@;
                if let Some(el) = else_ {
                    self.s(" else ");
                    assert(decreases_to!(expr.kind => expr.kind->If_else_));
                    let ghost m2 = self.buf@;
                    match &el.kind {
                        ExprKind::Block(b) => {
                            assert(decreases_to!(**el => el.kind));
                            self.emit_block(b)?
                        },
                        _ => self.emit_expr(el)?,
                    }
                    assert(self.buf@ =~= m2 + js_else_text(**el, k));
                }
                assert(self.buf@ =~= m1 + js_opt_else_text(*else_, k));
                self.s(" })()");
                assert(self.buf@ =~= old(self).buf@ + js_expr_text(*expr, k));
                Ok(())
            },
            ExprKind::Match { .. } => self.emit_match(expr),
            ExprKind::Block(b) => {
                self.s("(() => ");
                self.emit_block(b)?;
                self.s(")()");
                assert(self.buf@ =~= old(self).buf@ + js_expr_text(*expr, k));
                Ok(())
            },
            ExprKind::Return { value } => {
                self.s("return");
                let ghost m1 = self.buf@;
                if let Some(v) = value {
                    self.s(" ");
                    assert(decreases_to!(expr.kind => expr.kind->Return_value));
                    self.emit_expr(v)?;
                }
                assert(self.buf@ =~= m1 + match value {
                    Some(v) => " "@ + js_expr_text(**v, k),
                    None => Seq::<char>::empty(),
                });
                assert(self.buf@ =~= old(self).buf@ + js_expr_text(*expr, k));
                Ok(())
            },
            ExprKind::While { cond, body } => {
                self.s("while (");
                self.emit_expr(cond)?;
                self.s(") ");
                self.emit_block(body)?;
                assert(self.buf@ =~= old(self).buf@ + js_expr_text(*expr, k));
                Ok(())
            },
            ExprKind::Loop(body) => {
                self.s("while (true) ");
                self.emit_block(body)?;
                assert(self.buf@ =~= old(self).buf@ + js_expr_text(*expr, k));
                Ok(())
            },
            ExprKind::For { pat, iter, body } => {
                self.s("for (const ");
                self.emit_pattern(pat)?;
                self.s(" of ");
                self.emit_expr(iter)?;
                self.s(") ");
                self.emit_block(body)?;
                assert(self.buf@ =~= old(self).buf@ + js_expr_text(*expr, k));
                Ok(())
            },
            _ => Ok(()),
        }
    }

    #[verifier::rlimit(100)]
    fn emit_compound(&mut self, expr: &Expr) -> (r: Result<(), CodegenError>)
        requires
            expr.kind is Call || expr.kind is MethodCall || expr.kind is TupleLit || expr.kind is ArrayLit
                || expr.kind is StructLit || expr.kind is Closure || expr.kind is Range || expr.kind is TemplateLit,
        ensures
            final(self).extends(*old(self)),
            r is Ok <==> js_expr_ok(*expr),
            r is Ok ==> final(self).wrote(*old(self), js_expr_text(*expr, old(self).indent)),
        decreases expr, 4nat,
    {
        let ghost k = self.indent;
        assert(decreases_to!(expr => expr.kind));
        match &expr.kind {
            ExprKind::Call { callee, args } => {
                self.emit_expr(callee)?;
                self.s("(");
                assert(decreases_to!(expr.kind => expr.kind->Call_args));
                self.emit_exprs(args)?;
                self.s(")");
                assert(self.buf@ =~= old(self).buf@ + js_expr_text(*expr, k));
                Ok(())
            },
            ExprKind::MethodCall { receiver, method, args } => {
                self.emit_expr(receiver)?;
                self.s(".");
                self.s(method.as_str());
                self.s("(");
                assert(decreases_to!(expr.kind => expr.kind->MethodCall_args));
                self.emit_exprs(args)?;
                self.s(")");
                assert(self.buf@ =~= old(self).buf@ + js_expr_text(*expr, k));
                Ok(())
            },
            ExprKind::TupleLit(elems) => {
                self.s("[");
                assert(decreases_to!(expr.kind => expr.kind->TupleLit_0));
                self.emit_exprs(elems)?;
                self.s("]");
                assert(self.buf@ =~= old(self).buf@ + js_expr_text(*expr, k));
                Ok(())
            },
            ExprKind::ArrayLit(elems) => {
                self.s("[");
                assert(decreases_to!(expr.kind => expr.kind->ArrayLit_0));
                self.emit_exprs(elems)?;
                self.s("]");
                assert(self.buf@ =~= old(self).buf@ + js_expr_text(*expr, k));
                Ok(())
            },
            ExprKind::StructLit { ty, fields } => {
                self.s("new ");
                self.emit_path(ty);
                self.s("(");
                let ghost open = self.buf@;
                let mut i: usize = 0;
                assert(self.buf@ =~= open + js_fields_text(fields@.subrange(0, 0), k));
                while i < fields.len()
                    invariant
                        self.extends(*old(self)),
                        k == old(self).indent,
                        expr.kind == (ExprKind::StructLit { ty: *ty, fields: *fields }),
                        i <= fields@.len(),
                        js_fields_ok(fields@.subrange(0, i as int)),
                        open == old(self).buf@ + "new "@ + js_path_text(*ty) + "("@,
                        self.buf@ == open + js_fields_text(fields@.subrange(0, i as int), k),
                    decreases fields.len() - i,
                {
                    proof {
                        lemma_fields_step(fields@, i as int);
                    }
                    if i > 0 {
                        self.s(", ");
                    }
                    let ghost before = self.buf@;
                    match &fields[i].value {
                        Some(v) => {
                            assert(decreases_to!(expr => *v)) by {
                                assert(decreases_to!(expr => expr.kind));
                                assert(decreases_to!(expr.kind => expr.kind->StructLit_fields));
                                assert(decreases_to!(expr.kind->StructLit_fields => expr.kind->StructLit_fields@));
                                assert(decreases_to!(expr.kind->StructLit_fields@ => expr.kind->StructLit_fields@[i as int]));
                                assert(decreases_to!(expr.kind->StructLit_fields@[i as int] => expr.kind->StructLit_fields@[i as int].value));
                            }
                            self.emit_expr(v)?;
                        },
                        None => self.s(fields[i].name.as_str()),
                    }
                    assert(self.buf@ =~= before + js_field_text(fields@[i as int], k));
                    proof {
                        let sub = fields@.subrange(0, i + 1);
                        assert(sub.drop_last() =~= fields@.subrange(0, i as int));
                        assert(sub.last() == fields@[i as int]);
                        if i == 0 {
                            assert(sub.len() == 1);
                        }
                        assert(self.buf@ =~= open + js_fields_text(sub, k));
                    }
                    i = i + 1;
                }
                assert(fields@.subrange(0, i as int) =~= fields@);
                self.s(")");
                assert(self.buf@ =~= old(self).buf@ + js_expr_text(*expr, k));
                Ok(())
            },
            ExprKind::Closure { params, body, ret } => {
                self.s("(");
                let ghost open = self.buf@;
                let mut i: usize = 0;
                assert(self.buf@ =~= open + js_params_text(params@.subrange(0, 0)));
                while i < params.len()
                    invariant
                        self.extends(*old(self)),
                        expr.kind == (ExprKind::Closure { params: *params, ret: *ret, body: *body }),
                        i <= params@.len(),
                        js_params_ok(params@.subrange(0, i as int)),
                        open == old(self).buf@ + "("@,
                        self.buf@ == open + js_params_text(params@.subrange(0, i as int)),
                    decreases params.len() - i,
                {
                    proof {
                        lemma_params_step(params@, i as int);
                    }
                    if i > 0 {
                        self.s(", ");
                    }
                    assert(decreases_to!(expr => params@[i as int].pat)) by {
                        assert(decreases_to!(expr => expr.kind));
                        assert(decreases_to!(expr.kind => expr.kind->Closure_params));
                        assert(decreases_to!(expr.kind->Closure_params => expr.kind->Closure_params@));
                        assert(decreases_to!(expr.kind->Closure_params@ => expr.kind->Closure_params@[i as int]));
                    }
                    self.emit_pattern(&params[i].pat)?;
                    proof {
                        let sub = params@.subrange(0, i + 1);
                        assert(sub.drop_last() =~= params@.subrange(0, i as int));
                        assert(sub.last() == params@[i as int]);
                        if i == 0 {
                            assert(sub.len() == 1);
                        }
                        assert(self.buf@ =~= open + js_params_text(sub));
                    }
                    i = i + 1;
                }
                assert(params@.subrange(0, i as int) =~= params@);
                self.s(") => ");
                self.emit_expr(body)?;
                assert(self.buf@ =~= old(self).buf@ + js_expr_text(*expr, k));
                Ok(())
            },
            ExprKind::Range { start, end, inclusive } => {
                self.s("__selvr.range(");
                let ghost m1 = self.buf@;
                match start {
                    Some(st) => {
                        assert(decreases_to!(expr.kind => expr.kind->Range_start));
                        self.emit_expr(st)?
                    },
                    None => self.s("undefined"),
                }
                assert(self.buf@ =~= m1 + match start {
                    Some(s) => js_expr_text(**s, k),
                    None => "undefined"@,
                });
                self.s(", ");
                let ghost m2 = self.buf@;
                match end {
                    Some(en) => {
                        assert(decreases_to!(expr.kind => expr.kind->Range_end));
                        self.emit_expr(en)?
                    },
                    None => self.s("undefined"),
                }
                assert(self.buf@ =~= m2 + match end {
                    Some(x) => js_expr_text(**x, k),
                    None => "undefined"@,
                });
                self.s(", ");
                self.s(if *inclusive { "true" } else { "false" });
                self.s(")");
                assert(self.buf@ =~= old(self).buf@ + js_expr_text(*expr, k));
                Ok(())
            },
            ExprKind::TemplateLit { parts } => {
                self.s("`");
                let ghost open = self.buf@;
                let mut i: usize = 0;
                assert(self.buf@ =~= open + js_parts_text(parts@.subrange(0, 0), k));
                while i < parts.len()
                    invariant
                        self.extends(*old(self)),
                        k == old(self).indent,
                        expr.kind == (ExprKind::TemplateLit { parts: *parts }),
                        i <= parts@.len(),
                        js_parts_ok(parts@.subrange(0, i as int)),
                        open == old(self).buf@ + "`"@,
                        self.buf@ == open + js_parts_text(parts@.subrange(0, i as int), k),
                    decreases parts.len() - i,
                {
                    proof {
                        lemma_parts_step(parts@, i as int);
                    }
                    match &parts[i] {
                        TemplatePart::Str(t) => self.s(t.as_str()),
                        TemplatePart::Expr(x) => {
                            self.s("${");
                            assert(decreases_to!(expr => **x)) by {
                                assert(decreases_to!(expr => expr.kind));
                                assert(decreases_to!(expr.kind => expr.kind->TemplateLit_parts));
                                assert(decreases_to!(expr.kind->TemplateLit_parts => expr.kind->TemplateLit_parts@));
                                assert(decreases_to!(expr.kind->TemplateLit_parts@ => expr.kind->TemplateLit_parts@[i as int]));
                            }
                            self.emit_expr(x)?;
                            self.s("}");
                        },
                    }
                    proof {
                        let sub = parts@.subrange(0, i + 1);
                        assert(sub.drop_last() =~= parts@.subrange(0, i as int));
                        assert(sub.last() == parts@[i as int]);
                        assert(self.buf@ =~= open + js_parts_text(sub, k));
                    }
                    i = i + 1;
                }
                assert(parts@.subrange(0, i as int) =~= parts@);
                self.s("`");
                assert(self.buf@ =~= old(self).buf@ + js_expr_text(*expr, k));
                Ok(())
            },
            _ => Ok(()),
        }
    }

    /// A `match` as an immediately invoked function with an `if` chain.
    #[verifier::rlimit(100)]
    fn emit_match(&mut self, expr: &Expr) -> (r: Result<(), CodegenError>)
        requires
            expr.kind is Match,
        ensures
            final(self).extends(*old(self)),
            r is Ok <==> js_expr_ok(*expr),
            r is Ok ==> final(self).wrote(*old(self), js_expr_text(*expr, old(self).indent)),
        decreases expr, 3nat,
    {
        let (scrutinee, arms) = match &expr.kind {
            ExprKind::Match { scrutinee, arms } => (scrutinee, arms),
            _ => {
                return Ok(());
            },
        };
        assert(decreases_to!(expr => arms@)) by {
            assert(decreases_to!(expr => expr.kind));
            assert(decreases_to!(expr.kind => expr.kind->Match_arms));
            assert(decreases_to!(expr.kind->Match_arms => expr.kind->Match_arms@));
        }
        let saved = self.indent;
        let ghost o = self.buf@;
        let ghost k1 = up1(saved);
        let ghost k2 = up2(saved);
        self.s("(() => {\n");
        let ghost mut acc: Seq<char> = "(() => {\n"@;
        self.indent = saved.saturating_add(1);
        self.write_indent();
        proof { lemma_app(o, acc, ws(k1)); acc = acc + ws(k1); }
        self.s("const __m = ");
        proof { lemma_app(o, acc, "const __m = "@); acc = acc + "const __m = "@; }
        match self.emit_expr(scrutinee) {
            Ok(()) => {},
            Err(e) => {
                self.indent = saved;
                return Err(e);
            },
        }
        proof { lemma_app(o, acc, js_expr_text(**scrutinee, k1)); acc = acc + js_expr_text(**scrutinee, k1); }
        self.s(";\n");
        proof { lemma_app(o, acc, ";\n"@); acc = acc + ";\n"@; }
        let ghost open = self.buf@;
        let mut i: usize = 0;
        assert(self.buf@ =~= open + js_arms_text(arms@.subrange(0, 0), saved));
        while i < arms.len()
            invariant
                old(self).buf@.len() <= self.buf@.len(),
                forall|k: int| 0 <= k < old(self).buf@.len() ==> #[trigger] self.buf@[k] == old(self).buf@[k],
                self.source_map == old(self).source_map,
                saved == old(self).indent,
                self.indent == k1,
                k1 == up1(saved),
                k2 == up2(saved),
                js_expr_ok(**scrutinee),
                expr.kind == (ExprKind::Match { scrutinee: *scrutinee, arms: *arms }),
                decreases_to!(expr => arms@),
                i <= arms@.len(),
                js_arms_ok(arms@.subrange(0, i as int)),
                o == old(self).buf@,
                open == o + acc,
                self.buf@ == open + js_arms_text(arms@.subrange(0, i as int), saved),
            decreases arms.len() - i,
        {
            proof {
                lemma_arms_step(arms@, i as int);
            }
            let arm = &arms[i];
            let ghost before = self.buf@;
            self.write_indent();
            if i > 0 {
                self.s("} else ");
            }
            self.s("if (");
            self.emit_match_condition("__m", &arm.pattern);
            self.s(") {\n");
            self.indent = saved.saturating_add(2);
            self.write_indent();
            self.s("return ");
            assert(decreases_to!(expr => *arm.body)) by {
                assert(decreases_to!(expr => arms@));
                assert(decreases_to!(arms@ => arms@[i as int]));
                assert(decreases_to!(arms@[i as int] => arms@[i as int].body));
            }
            match self.emit_expr(&arm.body) {
                Ok(()) => {},
                Err(e) => {
                    self.indent = saved;
                    return Err(e);
                },
            }
            self.s(";\n");
            self.indent = saved.saturating_add(1);
            assert(self.buf@ =~= before + js_arm_text(*arm, saved, i == 0));
            proof {
                let sub = arms@.subrange(0, i + 1);
                assert(sub.drop_last() =~= arms@.subrange(0, i as int));
                assert(sub.last() == arms@[i as int]);
                lemma_app(open, js_arms_text(arms@.subrange(0, i as int), saved), js_arm_text(*arm, saved, i == 0));
                assert(self.buf@ == open + js_arms_text(sub, saved));
            }
            i = i + 1;
        }
        assert(arms@.subrange(0, i as int) =~= arms@);
        proof { lemma_app(o, acc, js_arms_text(arms@, saved)); acc = acc + js_arms_text(arms@, saved); }
        self.write_indent();
        proof { lemma_app(o, acc, ws(k1)); acc = acc + ws(k1); }
        self.s("} else { __selvr.panic(\"non-exhaustive match\"); }\n");
        proof {
            lemma_app(o, acc, "} else { __selvr.panic(\"non-exhaustive match\"); }\n"@);
            acc = acc + "} else { __selvr.panic(\"non-exhaustive match\"); }\n"@;
        }
        self.indent = saved;
        self.write_indent();
        proof { lemma_app(o, acc, ws(saved)); acc = acc + ws(saved); }
        self.s("})()");
        proof { lemma_app(o, acc, "})()"@); acc = acc + "})()"@; }
        assert(acc == js_expr_text(*expr, saved));
        Ok(())
    }

    /// The JS condition that `scrutinee` matches `pat`.
    fn emit_match_condition(&mut self, scrutinee: &str, pat: &Pattern)
        ensures
            final(self).extends(*old(self)),
            final(self).wrote(*old(self), js_cond_text(scrutinee@, *pat)),
    {
        match &pat.kind {
            PatternKind::Literal(lit) => {
                self.s(scrutinee);
                self.s(" === ");
                match lit {
                    LitPat::Int(v) => {
                        let t = i64_to_string(*v);
                        self.s(t.as_str());
                    },
                    LitPat::Bool(v) => self.s(if *v { "true" } else { "false" }),
                    LitPat::Str(v) => {
                        let t = str_debug(v.as_str());
                        self.s(t.as_str());
                    },
                    LitPat::Float(v) => self.s(v.as_str()),
                    LitPat::Char(v) => {
                        let t = char_debug(*v);
                        self.s(t.as_str());
                    },
                }
            },
            PatternKind::TupleStruct { path, .. } => {
                let n = path.segments.len();
                let tag = if n > 0 {
                    str_debug(path.segments[n - 1].name.as_str())
                } else {
                    str_debug("_")
                };
                self.s(scrutinee);
                self.s(".tag === ");
                self.s(tag.as_str());
            },
            _ => self.s("true"),
        }
        assert(self.buf@ =~= old(self).buf@ + js_cond_text(scrutinee@, *pat));
    }
}

} // verus!
