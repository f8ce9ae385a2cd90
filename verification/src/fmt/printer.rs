//! AST → canonical Selvr source.
//!
//! Four-space indentation, one blank line between top-level items, braces
//! on the keyword's line, a trailing newline.  Floating-point literals are
//! written as their source text.

use vstd::prelude::*;
use crate::ast::{
    Module, Item, Attr, FnDef, Block, Type, GenericParam, Stmt, Pattern, PatternKind, LitPat, Path, Expr,
    ExprKind, UnaryOp, BinaryOp, TemplatePart, StructDef, EnumDef, VariantKind, TraitDef, TraitItem,
    ImplBlock, ImplItem, TypeAlias, ImportDecl, ImportItems, ModDecl, ConstItem, Visibility, MatchArm,
};
use crate::text::{push_str, push_char, i64_to_string, chars_of};
use crate::lexer::{lex_step, scan, Class};
use crate::parser::{binop_of, unary_of};
use crate::fmt::layout::unary_text;
use crate::target::infer::join;
use crate::fmt::layout::{
    ind_width, ind_text, deeper, binop_prec, expr_prec, operand_text, vis_text, block_like, type_text, types_text, generic_text, generic_list_text, generics_text, segment_text, segments_text, path_text, pattern_text, patterns_text, field_pat_text, field_pats_text, opt_expr_text, else_text, expr_text, exprs_text, field_init_text, field_inits_text, closure_param_text, closure_params_text, template_text, arm_text, arms_text, block_text, stmt_text, stmts_text, attr_text, attrs_text, params_text, param_text, ret_text, fn_text, struct_field_text, struct_fields_text, struct_text, variant_field_text, variant_fields_text, variant_text, variant_kind_text, variants_text, enum_text, trait_item_text, trait_items_text, trait_text, impl_item_text, impl_items_text, impl_trait_text, impl_text, type_alias_text, imported_text, imported_list_text, import_text, mod_text, const_text, item_text, items_text, module_text,
};

verus! {

broadcast use vstd::std_specs::vec::axiom_vec_index_decreases;

pub struct Printer {
    buf: String,
    depth: usize,
    indent: usize,
}

/// The operator's source text.
pub open spec fn binop_text(op: BinaryOp) -> Seq<char> {
    match op {
        BinaryOp::Add => "+"@,
        BinaryOp::Sub => "-"@,
        BinaryOp::Mul => "*"@,
        BinaryOp::Div => "/"@,
        BinaryOp::Rem => "%"@,
        BinaryOp::BitAnd => "&"@,
        BinaryOp::BitOr => "|"@,
        BinaryOp::BitXor => "^"@,
        BinaryOp::Shl => "<<"@,
        BinaryOp::Shr => ">>"@,
        BinaryOp::And => "&&"@,
        BinaryOp::Or => "||"@,
        BinaryOp::Eq => "=="@,
        BinaryOp::Ne => "!="@,
        BinaryOp::Lt => "<"@,
        BinaryOp::Le => "<="@,
        BinaryOp::Gt => ">"@,
        BinaryOp::Ge => ">="@,
    }
}

/// Printing an operator and reading it back gives the same operator: the
/// printed text lexes, whole, to one token that denotes `op`.
pub proof fn lemma_printed_operator_reads_back(op: BinaryOp)
    ensures
        binop_of(lex_step(binop_text(op), 0, 0).tok) == Some(op),
        lex_step(binop_text(op), 0, 0).next == binop_text(op).len(),
{
    reveal_strlit("+");
    reveal_strlit("-");
    reveal_strlit("*");
    reveal_strlit("/");
    reveal_strlit("%");
    reveal_strlit("&");
    reveal_strlit("|");
    reveal_strlit("^");
    reveal_strlit("<<");
    reveal_strlit(">>");
    reveal_strlit("&&");
    reveal_strlit("||");
    reveal_strlit("==");
    reveal_strlit("!=");
    reveal_strlit("<");
    reveal_strlit("<=");
    reveal_strlit(">");
    reveal_strlit(">=");
    let s = binop_text(op);
    assert(scan(s, 0, Class::Whitespace) == 0);
}

/// Printing a prefix operator and reading it back gives the same operator
/// (`*`, which the parser reads only as multiplication, aside).
pub proof fn lemma_printed_prefix_reads_back(op: UnaryOp)
    requires
        !(op is Deref),
    ensures
        unary_of(lex_step(unary_text(op), 0, 0).tok) == Some(op),
        lex_step(unary_text(op), 0, 0).next == unary_text(op).len(),
{
    reveal_strlit("-");
    reveal_strlit("!");
    let s = unary_text(op);
    assert(scan(s, 0, Class::Whitespace) == 0);
}

fn binop_prec_of(op: BinaryOp) -> (p: u8)
    ensures
        p as nat == binop_prec(op),
{
    match op {
        BinaryOp::Or => 1,
        BinaryOp::And => 2,
        BinaryOp::Eq | BinaryOp::Ne => 3,
        BinaryOp::Lt | BinaryOp::Le | BinaryOp::Gt | BinaryOp::Ge => 4,
        BinaryOp::BitOr => 5,
        BinaryOp::BitXor => 6,
        BinaryOp::BitAnd => 7,
        BinaryOp::Shl | BinaryOp::Shr => 8,
        BinaryOp::Add | BinaryOp::Sub => 9,
        BinaryOp::Mul | BinaryOp::Div | BinaryOp::Rem => 10,
    }
}

fn expr_prec_of(e: &Expr) -> (p: u8)
    ensures
        p as nat == expr_prec(*e),
{
    match &e.kind {
        ExprKind::Binary { op, .. } => binop_prec_of(*op),
        ExprKind::Unary { .. } => 11,
        ExprKind::Assign { .. } | ExprKind::CompoundAssign { .. } | ExprKind::Range { .. } | ExprKind::Closure {
            ..
        } => 0,
        _ => 12,
    }
}

pub fn binop_str(op: BinaryOp) -> (s: &'static str)
    ensures
        s@ == binop_text(op),
{
    match op {
        BinaryOp::Add => "+",
        BinaryOp::Sub => "-",
        BinaryOp::Mul => "*",
        BinaryOp::Div => "/",
        BinaryOp::Rem => "%",
        BinaryOp::BitAnd => "&",
        BinaryOp::BitOr => "|",
        BinaryOp::BitXor => "^",
        BinaryOp::Shl => "<<",
        BinaryOp::Shr => ">>",
        BinaryOp::And => "&&",
        BinaryOp::Or => "||",
        BinaryOp::Eq => "==",
        BinaryOp::Ne => "!=",
        BinaryOp::Lt => "<",
        BinaryOp::Le => "<=",
        BinaryOp::Gt => ">",
        BinaryOp::Ge => ">=",
    }
}

proof fn lemma_app(o: Seq<char>, a: Seq<char>, p: Seq<char>)
    ensures
        (o + a) + p == o + (a + p),
{
    assert((o + a) + p =~= o + (a + p));
}

proof fn lemma_app_empty(o: Seq<char>)
    ensures
        o + Seq::<char>::empty() == o,
{
    assert(o + Seq::<char>::empty() =~= o);
}

impl Printer {
    /// The text printed so far.
    pub closed spec fn text(&self) -> Seq<char> {
        self.buf@
    }

    /// The current nesting depth.
    pub closed spec fn depth_spec(&self) -> usize {
        self.depth
    }

    /// Spaces per nesting level.
    pub closed spec fn indent_spec(&self) -> usize {
        self.indent
    }

    /// `self` is `old` with `t` appended, at the same depth and indent.
    pub closed spec fn wrote(&self, old: Printer, t: Seq<char>) -> bool {
        &&& self.buf@ == old.buf@ + t
        &&& self.depth == old.depth
        &&& self.indent == old.indent
    }

    pub fn new(indent: usize) -> (p: Printer)
        ensures
            p.text() == Seq::<char>::empty(),
            p.depth_spec() == 0,
            p.indent_spec() == indent,
    {
        Printer { buf: String::new(), depth: 0, indent }
    }

    /// The text, ending with a newline.
    pub fn finish(self) -> (s: String)
        ensures
            s@ == if self.text().len() > 0 && self.text().last() == '\n' {
                self.text()
            } else {
                self.text().push('\n')
            },
    {
        let mut buf = self.buf;
        let v = chars_of(buf.as_str());
        if !(v.len() > 0 && v[v.len() - 1] == '\n') {
            push_char(&mut buf, '\n');
        }
        buf
    }

    fn s(&mut self, t: &str)
        ensures
            final(self).wrote(*old(self), t@),
    {
        push_str(&mut self.buf, t);
    }

    fn c(&mut self, ch: char)
        ensures
            final(self).wrote(*old(self), seq![ch]),
    {
        push_char(&mut self.buf, ch);
        assert(self.buf@ =~= old(self).buf@ + seq![ch]);
    }

    /// Indentation for the current depth.
    fn ind(&mut self)
        ensures
            final(self).wrote(*old(self), ind_text(old(self).depth, old(self).indent)),
    {
        let n: usize = if self.indent != 0 && self.depth > usize::MAX / self.indent {
            usize::MAX
        } else {
            proof {
                if self.indent != 0 {
                    let d = self.depth as int;
                    let k = self.indent as int;
                    assert(d * k <= (usize::MAX as int / k) * k) by (nonlinear_arith)
                        requires
                            d <= usize::MAX as int / k,
                            k > 0,
                    ;
                    assert((usize::MAX as int / k) * k <= usize::MAX as int) by (nonlinear_arith)
                        requires
                            k > 0,
                    ;
                }
            }
            self.depth * self.indent
        };
        assert(n as nat == ind_width(self.depth, self.indent));
        let mut i: usize = 0;
        while i < n
            invariant
                i <= n,
                self.buf@ == old(self).buf@ + Seq::new(i as nat, |j: int| ' '),
                self.depth == old(self).depth,
                self.indent == old(self).indent,
            decreases n - i,
        {
            self.c(' ');
            assert(Seq::new((i + 1) as nat, |j: int| ' ') =~= Seq::new(i as nat, |j: int| ' ').push(' '));
            i = i + 1;
        }
        assert(Seq::new(n as nat, |j: int| ' ') =~= ind_text(self.depth, self.indent));
    }

    fn push(&mut self)
        ensures
            final(self).buf == old(self).buf,
            final(self).indent == old(self).indent,
            final(self).depth == deeper(old(self).depth),
    {
        self.depth = self.depth.saturating_add(1);
    }

    /// Back to depth `d`, from one level deeper.
    fn restore(&mut self, d: usize)
        ensures
            final(self).buf == old(self).buf,
            final(self).indent == old(self).indent,
            final(self).depth == d,
    {
        self.depth = d;
    }
}

impl Printer {
    // ── Module and items ─────────────────────────────────────────────────────

    /// Prints the module's items, separated by blank lines.
    pub fn print_module(&mut self, m: &Module)
        ensures
            final(self).wrote(*old(self), module_text(*m, old(self).depth_spec(), old(self).indent_spec())),
            final(self).text() == old(self).text() + module_text(*m, old(self).depth_spec(), old(self).indent_spec()),
            final(self).depth_spec() == old(self).depth_spec(),
            final(self).indent_spec() == old(self).indent_spec(),
        decreases m, 0nat,
    {
        let ghost d = self.depth;
        let ghost k = self.indent;
        let mut i: usize = 0;
        assert(self.buf@ =~= old(self).buf@ + items_text(m.items@.subrange(0, 0), d, k));
        while i < m.items.len()
            invariant
                i <= m.items@.len(),
                d == old(self).depth,
                k == old(self).indent,
                self.wrote(*old(self), items_text(m.items@.subrange(0, i as int), d, k)),
            decreases m.items.len() - i,
        {
            let ghost before = self.buf@;
            if i > 0 {
                self.s("\n");
            }
            assert(decreases_to!(m => m.items@[i as int])) by {
                assert(decreases_to!(m => m.items));
                assert(decreases_to!(m.items => m.items@));
            }
            self.print_item(&m.items[i]);
            proof {
                let sub = m.items@.subrange(0, i + 1);
                assert(sub.drop_last() =~= m.items@.subrange(0, i as int));
                assert(sub.last() == m.items@[i as int]);
                if i == 0 {
                    assert(sub.len() == 1);
                    assert(self.buf@ =~= old(self).buf@ + items_text(sub, d, k));
                } else {
                    assert(self.buf@ =~= old(self).buf@ + items_text(sub, d, k));
                }
            }
            i = i + 1;
        }
        assert(m.items@.subrange(0, i as int) =~= m.items@);
    }

    fn print_item(&mut self, item: &Item)
        ensures
            final(self).wrote(*old(self), item_text(*item, old(self).depth, old(self).indent)),
        decreases item, 0nat,
    {
        match item {
            Item::FnDef(f) => self.print_fn(f),
            Item::StructDef(s) => self.print_struct(s),
            Item::EnumDef(e) => self.print_enum(e),
            Item::TraitDef(t) => self.print_trait(t),
            Item::ImplBlock(i) => self.print_impl(i),
            Item::TypeAlias(a) => self.print_type_alias(a),
            Item::ImportDecl(d) => self.print_import(d),
            Item::ModDecl(md) => self.print_mod(md),
            Item::Const(c) => self.print_const_item(c),
            Item::MacroDef(_) => {
                assert(self.buf@ =~= old(self).buf@ + Seq::<char>::empty());
            },
        }
    }

    fn print_attrs(&mut self, attrs: &Vec<Attr>)
        ensures
            final(self).wrote(*old(self), attrs_text(attrs@, old(self).depth, old(self).indent)),
    {
        let ghost d = self.depth;
        let ghost k = self.indent;
        let mut i: usize = 0;
        assert(self.buf@ =~= old(self).buf@ + attrs_text(attrs@.subrange(0, 0), d, k));
        while i < attrs.len()
            invariant
                i <= attrs@.len(),
                d == old(self).depth,
                k == old(self).indent,
                self.wrote(*old(self), attrs_text(attrs@.subrange(0, i as int), d, k)),
            decreases attrs.len() - i,
        {
            let a = &attrs[i];
            let ghost before = self.buf@;
            self.ind();
            self.s("#[");
            self.s(a.name.as_str());
            let ghost mid = self.buf@;
            if a.args.len() > 0 {
                self.s("(");
                let ghost open = self.buf@;
                let ghost parts = a.args@.map_values(|s: String| s@);
                let mut j: usize = 0;
                while j < a.args.len()
                    invariant
                        j <= a.args@.len(),
                        parts == a.args@.map_values(|s: String| s@),
                        self.buf@ == open + join(parts.subrange(0, j as int), ", "@),
                        self.depth == d,
                        self.indent == k,
                    decreases a.args.len() - j,
                {
                    if j > 0 {
                        self.s(", ");
                    }
                    self.s(a.args[j].as_str());
                    proof {
                        let sub = parts.subrange(0, j + 1);
                        assert(sub.drop_last() =~= parts.subrange(0, j as int));
                        assert(sub.last() == a.args@[j as int]@);
                        if j == 0 {
                            assert(self.buf@ =~= open + join(sub, ", "@));
                        } else {
                            assert(self.buf@ =~= open + join(sub, ", "@));
                        }
                    }
                    j = j + 1;
                }
                assert(parts.subrange(0, j as int) =~= parts);
                self.s(")");
            }
            self.s("]\n");
            proof {
                let sub = attrs@.subrange(0, i + 1);
                assert(sub.drop_last() =~= attrs@.subrange(0, i as int));
                assert(sub.last() == *a);
                assert(self.buf@ =~= before + attr_text(*a, d, k));
                assert(self.buf@ =~= old(self).buf@ + attrs_text(sub, d, k));
            }
            i = i + 1;
        }
        assert(attrs@.subrange(0, i as int) =~= attrs@);
    }

    fn vis(&mut self, v: Visibility)
        ensures
            final(self).wrote(*old(self), vis_text(v)),
    {
        if v == Visibility::Public {
            self.s("export ");
        } else {
            assert(self.buf@ =~= old(self).buf@ + vis_text(v));
        }
    }

    fn print_ret(&mut self, r: &Option<Type>)
        ensures
            final(self).wrote(*old(self), ret_text(*r, old(self).depth, old(self).indent)),
        decreases r, 0nat,
    {
        if let Some(t) = r {
            self.s(": ");
            self.print_type(t);
            assert(self.buf@ =~= old(self).buf@ + ret_text(*r, old(self).depth, old(self).indent));
        } else {
            assert(self.buf@ =~= old(self).buf@ + ret_text(*r, old(self).depth, old(self).indent));
        }
    }

    fn print_fn(&mut self, f: &FnDef)
        ensures
            final(self).wrote(*old(self), fn_text(*f, old(self).depth, old(self).indent)),
        decreases f, 0nat,
    {
        let ghost d = self.depth;
        let ghost k = self.indent;
        let ghost o = old(self).buf@;
        self.print_attrs(&f.attrs);
        let ghost mut acc = attrs_text(f.attrs@, d, k);
        self.ind();
        proof { lemma_app(o, acc, ind_text(d, k)); acc = acc + ind_text(d, k); }
        self.vis(f.vis);
        proof { lemma_app(o, acc, vis_text(f.vis)); acc = acc + vis_text(f.vis); }
        let ghost pa: Seq<char> = if f.is_async { "async "@ } else { seq![] };
        if f.is_async {
            self.s("async ");
        } else {
            proof { lemma_app_empty(o + acc); }
        }
        proof { lemma_app(o, acc, pa); acc = acc + pa; }
        self.s("fn ");
        proof { lemma_app(o, acc, "fn "@); acc = acc + "fn "@; }
        self.s(f.name.as_str());
        proof { lemma_app(o, acc, f.name@); acc = acc + f.name@; }
        assert(decreases_to!(f => f.generics));
        self.print_generics(&f.generics);
        proof { lemma_app(o, acc, generics_text(f.generics@, d, k)); acc = acc + generics_text(f.generics@, d, k); }
        self.s("(");
        proof { lemma_app(o, acc, "("@); acc = acc + "("@; }
        assert(decreases_to!(f => f.params));
        self.print_params(&f.params);
        proof { lemma_app(o, acc, params_text(f.params@, d, k)); acc = acc + params_text(f.params@, d, k); }
        self.s(")");
        proof { lemma_app(o, acc, ")"@); acc = acc + ")"@; }
        assert(decreases_to!(f => f.return_ty));
        self.print_ret(&f.return_ty);
        proof { lemma_app(o, acc, ret_text(f.return_ty, d, k)); acc = acc + ret_text(f.return_ty, d, k); }
        self.s(" ");
        proof { lemma_app(o, acc, " "@); acc = acc + " "@; }
        self.print_block(&f.body);
        proof { lemma_app(o, acc, block_text(f.body, d, k)); acc = acc + block_text(f.body, d, k); }
        self.s("\n");
        proof { lemma_app(o, acc, "\n"@); acc = acc + "\n"@; }
        assert(acc == fn_text(*f, d, k));
    }

    fn print_params(&mut self, ps: &Vec<crate::ast::Param>)
        ensures
            final(self).wrote(*old(self), params_text(ps@, old(self).depth, old(self).indent)),
        decreases ps, 0nat,
    {
        let ghost d = self.depth;
        let ghost k = self.indent;
        let mut i: usize = 0;
        assert(self.buf@ =~= old(self).buf@ + params_text(ps@.subrange(0, 0), d, k));
        while i < ps.len()
            invariant
                i <= ps@.len(),
                d == old(self).depth,
                k == old(self).indent,
                self.wrote(*old(self), params_text(ps@.subrange(0, i as int), d, k)),
            decreases ps.len() - i,
        {
            let ghost b0 = self.buf@;
            if i > 0 {
                self.s(", ");
            }
            let ghost b1 = self.buf@;
            self.s(ps[i].name.as_str());
            self.s(": ");
            assert(decreases_to!(ps => ps@[i as int].ty)) by {
                assert(decreases_to!(ps => ps@));
                assert(decreases_to!(ps@ => ps@[i as int]));
            }
            self.print_type(&ps[i].ty);
            assert(self.buf@ =~= b1 + param_text(ps@[i as int], d, k));
            proof {
                let sub = ps@.subrange(0, i + 1);
                if i > 0 {
                    lemma_app(old(self).buf@, params_text(ps@.subrange(0, i as int), d, k), ", "@);
                    lemma_app(old(self).buf@, params_text(ps@.subrange(0, i as int), d, k) + ", "@, param_text(ps@[i as int], d, k));
                } else {
                    assert(b1 == old(self).buf@);
                }
                assert(sub.drop_last() =~= ps@.subrange(0, i as int));
                assert(sub.last() == ps@[i as int]);
                if i == 0 {
                    assert(sub.len() == 1);
                }
                assert(self.buf@ =~= old(self).buf@ + params_text(sub, d, k));
            }
            i = i + 1;
        }
        assert(ps@.subrange(0, i as int) =~= ps@);
    }

    fn print_block(&mut self, b: &Block)
        ensures
            final(self).wrote(*old(self), block_text(*b, old(self).depth, old(self).indent)),
        decreases b, 0nat,
    {
        let d = self.depth;
        let ghost k = self.indent;
        self.s("{\n");
        self.push();
        let ghost d1 = deeper(d);
        let ghost open = self.buf@;
        let mut i: usize = 0;
        assert(self.buf@ =~= open + stmts_text(b.stmts@.subrange(0, 0), d1, k));
        while i < b.stmts.len()
            invariant
                i <= b.stmts@.len(),
                self.depth == d1,
                self.indent == k,
                k == old(self).indent,
                d == old(self).depth,
                d1 == deeper(d),
                open == old(self).buf@ + "{\n"@,
                self.buf@ == open + stmts_text(b.stmts@.subrange(0, i as int), d1, k),
            decreases b.stmts.len() - i,
        {
            assert(decreases_to!(b => b.stmts@[i as int])) by {
                assert(decreases_to!(b => b.stmts));
                assert(decreases_to!(b.stmts => b.stmts@));
            }
            self.print_stmt(&b.stmts[i]);
            proof {
                let sub = b.stmts@.subrange(0, i + 1);
                assert(sub.drop_last() =~= b.stmts@.subrange(0, i as int));
                assert(sub.last() == b.stmts@[i as int]);
                assert(self.buf@ =~= open + stmts_text(sub, d1, k));
            }
            i = i + 1;
        }
        assert(b.stmts@.subrange(0, i as int) =~= b.stmts@);
        let ghost mid = self.buf@;
        if let Some(tail) = &b.tail {
            self.ind();
            assert(decreases_to!(b => **tail)) by {
                assert(decreases_to!(b => b.tail));
            }
            self.print_expr(tail);
            self.s("\n");
        }
        assert(self.buf@ =~= mid + match b.tail {
            Some(t) => ind_text(d1, k) + expr_text(*t, d1, k) + "\n"@,
            None => Seq::<char>::empty(),
        });
        self.restore(d);
        self.ind();
        self.s("}");
        assert(self.buf@ =~= old(self).buf@ + block_text(*b, d, k));
    }

    // ── Types ────────────────────────────────────────────────────────────────

    fn print_types(&mut self, ts: &Vec<Type>, sep: &str)
        ensures
            final(self).wrote(*old(self), types_text(ts@, sep@, old(self).depth, old(self).indent)),
        decreases ts, 0nat,
    {
        let ghost d = self.depth;
        let ghost k = self.indent;
        let mut i: usize = 0;
        assert(self.buf@ =~= old(self).buf@ + types_text(ts@.subrange(0, 0), sep@, d, k));
        while i < ts.len()
            invariant
                i <= ts@.len(),
                d == old(self).depth,
                k == old(self).indent,
                self.wrote(*old(self), types_text(ts@.subrange(0, i as int), sep@, d, k)),
            decreases ts.len() - i,
        {
            if i > 0 {
                self.s(sep);
            }
            assert(decreases_to!(ts => ts@[i as int])) by {
                assert(decreases_to!(ts => ts@));
            }
            self.print_type(&ts[i]);
            proof {
                let sub = ts@.subrange(0, i + 1);
                assert(sub.drop_last() =~= ts@.subrange(0, i as int));
                assert(sub.last() == ts@[i as int]);
                if i == 0 {
                    assert(sub.len() == 1);
                }
                assert(self.buf@ =~= old(self).buf@ + types_text(sub, sep@, d, k));
            }
            i = i + 1;
        }
        assert(ts@.subrange(0, i as int) =~= ts@);
    }

    fn print_type(&mut self, ty: &Type)
        ensures
            final(self).wrote(*old(self), type_text(*ty, old(self).depth, old(self).indent)),
        decreases ty, 0nat,
    {
        let ghost d = self.depth;
        let ghost k = self.indent;
        match ty {
            Type::Named { name, args, .. } => {
                self.s(name.as_str());
                if args.len() > 0 {
                    self.s("<");
                    assert(decreases_to!(ty => *args)) by {
                        assert(decreases_to!(ty => ty->Named_args));
                    }
                    self.print_types(args, ", ");
                    self.s(">");
                }
            },
            Type::Tuple { elems, .. } => {
                self.s("(");
                assert(decreases_to!(ty => *elems)) by {
                    assert(decreases_to!(ty => ty->Tuple_elems));
                }
                self.print_types(elems, ", ");
                self.s(")");
            },
            Type::Array { elem, len, .. } => {
                self.s("[");
                self.print_type(elem);
                if let Some(l) = len {
                    self.s("; ");
                    assert(decreases_to!(ty => **l)) by {
                        assert(decreases_to!(ty => ty->Array_len));
                    }
                    self.print_expr(l);
                }
                self.s("]");
            },
            Type::Fn { params, ret, .. } => {
                self.s("fn(");
                assert(decreases_to!(ty => *params)) by {
                    assert(decreases_to!(ty => ty->Fn_params));
                }
                self.print_types(params, ", ");
                self.s(") -> ");
                self.print_type(ret);
            },
            Type::Void(_) => self.s("void"),
            Type::Infer(_) => self.s("_"),
        }
        assert(self.buf@ =~= old(self).buf@ + type_text(*ty, d, k));
    }

    fn print_generics(&mut self, gs: &Vec<GenericParam>)
        ensures
            final(self).wrote(*old(self), generics_text(gs@, old(self).depth, old(self).indent)),
        decreases gs, 0nat,
    {
        let ghost d = self.depth;
        let ghost k = self.indent;
        if gs.len() == 0 {
            assert(self.buf@ =~= old(self).buf@ + generics_text(gs@, d, k));
            return;
        }
        self.s("<");
        let ghost open = self.buf@;
        let mut i: usize = 0;
        assert(self.buf@ =~= open + generic_list_text(gs@.subrange(0, 0), d, k));
        while i < gs.len()
            invariant
                i <= gs@.len(),
                self.depth == d,
                self.indent == k,
                d == old(self).depth,
                k == old(self).indent,
                open == old(self).buf@ + "<"@,
                self.buf@ == open + generic_list_text(gs@.subrange(0, i as int), d, k),
            decreases gs.len() - i,
        {
            if i > 0 {
                self.s(", ");
            }
            let g = &gs[i];
            let ghost before = self.buf@;
            self.s(g.name.as_str());
            if g.bounds.len() > 0 {
                self.s(": ");
                assert(decreases_to!(gs => g.bounds)) by {
                    assert(decreases_to!(gs => gs@));
                    assert(decreases_to!(gs@ => gs@[i as int]));
                }
                self.print_types(&g.bounds, " + ");
            }
            assert(self.buf@ =~= before + generic_text(*g, d, k));
            proof {
                let sub = gs@.subrange(0, i + 1);
                assert(sub.drop_last() =~= gs@.subrange(0, i as int));
                assert(sub.last() == gs@[i as int]);
                if i == 0 {
                    assert(sub.len() == 1);
                }
                assert(self.buf@ =~= open + generic_list_text(sub, d, k));
            }
            i = i + 1;
        }
        assert(gs@.subrange(0, i as int) =~= gs@);
        self.s(">");
        assert(self.buf@ =~= old(self).buf@ + generics_text(gs@, d, k));
    }

    // ── Statements ───────────────────────────────────────────────────────────

    fn print_stmt(&mut self, st: &Stmt)
        ensures
            final(self).wrote(*old(self), stmt_text(*st, old(self).depth, old(self).indent)),
        decreases st, 0nat,
    {
        let ghost d = self.depth;
        let ghost k = self.indent;
        match st {
            Stmt::Let(b) => {
                self.ind();
                self.s("let ");
                self.print_pattern(&b.pattern);
                let ghost m1 = self.buf@;
                if let Some(ty) = &b.ty {
                    self.s(": ");
                    assert(decreases_to!(st => *ty)) by {
                        assert(decreases_to!(st => st->Let_0));
                        assert(decreases_to!(st->Let_0 => st->Let_0.ty));
                    }
                    self.print_type(ty);
                }
                assert(self.buf@ =~= m1 + match b.ty {
                    Some(t) => ": "@ + type_text(t, d, k),
                    None => Seq::<char>::empty(),
                });
                let ghost m2 = self.buf@;
                if let Some(init) = &b.init {
                    self.s(" = ");
                    assert(decreases_to!(st => *init)) by {
                        assert(decreases_to!(st => st->Let_0));
                        assert(decreases_to!(st->Let_0 => st->Let_0.init));
                    }
                    self.print_expr(init);
                }
                assert(self.buf@ =~= m2 + match b.init {
                    Some(x) => " = "@ + expr_text(x, d, k),
                    None => Seq::<char>::empty(),
                });
                self.s(";\n");
            },
            Stmt::Expr(e, _) => {
                self.ind();
                self.print_expr(e);
                let ghost m1 = self.buf@;
                // Block-like expressions take no semicolon.
                match &e.kind {
                    ExprKind::If { .. } | ExprKind::While { .. } | ExprKind::For { .. } | ExprKind::Loop(_) => {},
                    _ => {
                        self.s(";");
                    },
                }
                assert(self.buf@ =~= m1 + (if block_like(*e) { Seq::<char>::empty() } else { ";"@ }));
                self.s("\n");
            },
            Stmt::Item(item) => self.print_item(item),
        }
        assert(self.buf@ =~= old(self).buf@ + stmt_text(*st, d, k));
    }

    // ── Patterns and paths ───────────────────────────────────────────────────

    fn print_patterns(&mut self, ps: &Vec<Pattern>, sep: &str)
        ensures
            final(self).wrote(*old(self), patterns_text(ps@, sep@, old(self).depth, old(self).indent)),
        decreases ps, 0nat,
    {
        let ghost d = self.depth;
        let ghost k = self.indent;
        let mut i: usize = 0;
        assert(self.buf@ =~= old(self).buf@ + patterns_text(ps@.subrange(0, 0), sep@, d, k));
        while i < ps.len()
            invariant
                i <= ps@.len(),
                d == old(self).depth,
                k == old(self).indent,
                self.wrote(*old(self), patterns_text(ps@.subrange(0, i as int), sep@, d, k)),
            decreases ps.len() - i,
        {
            if i > 0 {
                self.s(sep);
            }
            assert(decreases_to!(ps => ps@[i as int])) by {
                assert(decreases_to!(ps => ps@));
            }
            self.print_pattern(&ps[i]);
            proof {
                let sub = ps@.subrange(0, i + 1);
                assert(sub.drop_last() =~= ps@.subrange(0, i as int));
                assert(sub.last() == ps@[i as int]);
                if i == 0 {
                    assert(sub.len() == 1);
                }
                assert(self.buf@ =~= old(self).buf@ + patterns_text(sub, sep@, d, k));
            }
            i = i + 1;
        }
        assert(ps@.subrange(0, i as int) =~= ps@);
    }

    #[verifier::rlimit(100)]
    fn print_pattern(&mut self, p: &Pattern)
        ensures
            final(self).wrote(*old(self), pattern_text(*p, old(self).depth, old(self).indent)),
        decreases p, 0nat,
    {
        let ghost d = self.depth;
        let ghost k = self.indent;
        assert(decreases_to!(p => p.kind));
        match &p.kind {
            PatternKind::Wildcard => self.s("_"),
            PatternKind::Ident { name, mutable } => {
                if *mutable {
                    self.s("mut ");
                }
                self.s(name.as_str());
            },
            PatternKind::Literal(lit) => match lit {
                LitPat::Int(n) => {
                    let t = i64_to_string(*n);
                    self.s(t.as_str());
                },
                LitPat::Float(f) => self.s(f.as_str()),
                LitPat::Bool(b) => self.s(if *b { "true" } else { "false" }),
                LitPat::Str(s) => {
                    self.s("\"");
                    self.s(s.as_str());
                    self.s("\"");
                },
                LitPat::Char(ch) => {
                    self.c('\'');
                    self.c(*ch);
                    self.c('\'');
                },
            },
            PatternKind::Tuple(elems) => {
                self.s("(");
                assert(decreases_to!(p.kind => p.kind->Tuple_0));
                self.print_patterns(elems, ", ");
                self.s(")");
            },
            PatternKind::Array(elems) => {
                self.s("[");
                assert(decreases_to!(p.kind => p.kind->Array_0));
                self.print_patterns(elems, ", ");
                self.s("]");
            },
            PatternKind::Struct { path, fields, rest } => {
                self.print_path(path);
                self.s(" { ");
                let ghost open = self.buf@;
                let mut i: usize = 0;
                assert(self.buf@ =~= open + field_pats_text(fields@.subrange(0, 0), d, k));
                while i < fields.len()
                    invariant
                        i <= fields@.len(),
                        self.depth == d,
                        self.indent == k,
                        p.kind == (PatternKind::Struct { path: *path, fields: *fields, rest: *rest }),
                        self.buf@ == open + field_pats_text(fields@.subrange(0, i as int), d, k),
                    decreases fields.len() - i,
                {
                    if i > 0 {
                        self.s(", ");
                    }
                    let ghost before = self.buf@;
                    self.s(fields[i].name.as_str());
                    if let Some(p2) = &fields[i].pat {
                        self.s(": ");
                        assert(decreases_to!(p => *p2)) by {
                            assert(decreases_to!(p.kind => p.kind->Struct_fields));
                            assert(decreases_to!(p.kind->Struct_fields => p.kind->Struct_fields@));
                            assert(decreases_to!(p.kind->Struct_fields@ => p.kind->Struct_fields@[i as int]));
                            assert(decreases_to!(p.kind->Struct_fields@[i as int] => p.kind->Struct_fields@[i as int].pat));
                        }
                        self.print_pattern(p2);
                    }
                    assert(self.buf@ =~= before + field_pat_text(fields@[i as int], d, k));
                    proof {
                        let sub = fields@.subrange(0, i + 1);
                        assert(sub.drop_last() =~= fields@.subrange(0, i as int));
                        assert(sub.last() == fields@[i as int]);
                        if i == 0 {
                            assert(sub.len() == 1);
                        }
                        assert(self.buf@ =~= open + field_pats_text(sub, d, k));
                    }
                    i = i + 1;
                }
                assert(fields@.subrange(0, i as int) =~= fields@);
                if *rest {
                    self.s(", ..");
                }
                self.s(" }");
            },
            PatternKind::TupleStruct { path, elems } => {
                self.print_path(path);
                self.s("(");
                assert(decreases_to!(p.kind => p.kind->TupleStruct_elems));
                self.print_patterns(elems, ", ");
                self.s(")");
            },
            PatternKind::Or(pats) => {
                assert(decreases_to!(p.kind => p.kind->Or_0));
                self.print_patterns(pats, " | ");
            },
            PatternKind::Range { start, end, inclusive } => {
                if let Some(st) = start {
                    assert(decreases_to!(p.kind => p.kind->Range_start));
                    self.print_pattern(st);
                }
                let ghost m1 = self.buf@;
                self.s(if *inclusive { "..=" } else { ".." });
                let ghost m2 = self.buf@;
                if let Some(en) = end {
                    assert(decreases_to!(p.kind => p.kind->Range_end));
                    self.print_pattern(en);
                }
                assert(self.buf@ =~= m2 + match end {
                    Some(e) => pattern_text(**e, d, k),
                    None => Seq::<char>::empty(),
                });
            },
        }
        assert(self.buf@ =~= old(self).buf@ + pattern_text(*p, d, k));
    }

    fn print_path(&mut self, p: &Path)
        ensures
            final(self).wrote(*old(self), path_text(*p, old(self).depth, old(self).indent)),
        decreases p, 0nat,
    {
        let ghost d = self.depth;
        let ghost k = self.indent;
        let mut i: usize = 0;
        assert(self.buf@ =~= old(self).buf@ + segments_text(p.segments@.subrange(0, 0), d, k));
        while i < p.segments.len()
            invariant
                i <= p.segments@.len(),
                d == old(self).depth,
                k == old(self).indent,
                self.wrote(*old(self), segments_text(p.segments@.subrange(0, i as int), d, k)),
            decreases p.segments.len() - i,
        {
            if i > 0 {
                self.s("::");
            }
            let seg = &p.segments[i];
            let ghost before = self.buf@;
            self.s(seg.name.as_str());
            if seg.args.len() > 0 {
                self.s("<");
                assert(decreases_to!(p => seg.args)) by {
                    assert(decreases_to!(p => p.segments));
                    assert(decreases_to!(p.segments => p.segments@));
                    assert(decreases_to!(p.segments@ => p.segments@[i as int]));
                }
                self.print_types(&seg.args, ", ");
                self.s(">");
            }
            assert(self.buf@ =~= before + segment_text(*seg, d, k));
            proof {
                let sub = p.segments@.subrange(0, i + 1);
                assert(sub.drop_last() =~= p.segments@.subrange(0, i as int));
                assert(sub.last() == p.segments@[i as int]);
                if i == 0 {
                    assert(sub.len() == 1);
                }
                assert(self.buf@ =~= old(self).buf@ + segments_text(sub, d, k));
            }
            i = i + 1;
        }
        assert(p.segments@.subrange(0, i as int) =~= p.segments@);
    }
}

impl Printer {
    // ── Expressions ──────────────────────────────────────────────────────────

    fn print_exprs(&mut self, es: &Vec<Expr>)
        ensures
            final(self).wrote(*old(self), exprs_text(es@, old(self).depth, old(self).indent)),
        decreases es, 0nat,
    {
        let ghost d = self.depth;
        let ghost k = self.indent;
        let mut i: usize = 0;
        assert(self.buf@ =~= old(self).buf@ + exprs_text(es@.subrange(0, 0), d, k));
        while i < es.len()
            invariant
                i <= es@.len(),
                d == old(self).depth,
                k == old(self).indent,
                self.wrote(*old(self), exprs_text(es@.subrange(0, i as int), d, k)),
            decreases es.len() - i,
        {
            if i > 0 {
                self.s(", ");
            }
            assert(decreases_to!(es => es@[i as int])) by {
                assert(decreases_to!(es => es@));
            }
            self.print_expr(&es[i]);
            proof {
                let sub = es@.subrange(0, i + 1);
                assert(sub.drop_last() =~= es@.subrange(0, i as int));
                assert(sub.last() == es@[i as int]);
                if i == 0 {
                    assert(sub.len() == 1);
                }
                assert(self.buf@ =~= old(self).buf@ + exprs_text(sub, d, k));
            }
            i = i + 1;
        }
        assert(es@.subrange(0, i as int) =~= es@);
    }

    fn print_opt_expr(&mut self, pre: &str, x: &Option<Box<Expr>>)
        ensures
            final(self).wrote(*old(self), opt_expr_text(pre@, *x, old(self).depth, old(self).indent)),
        decreases x, 0nat,
    {
        if let Some(v) = x {
            self.s(pre);
            self.print_expr(v);
        }
        assert(self.buf@ =~= old(self).buf@ + opt_expr_text(pre@, *x, old(self).depth, old(self).indent));
    }

    /// `e` as an operand of an operator of precedence `p`, in parentheses
    /// where it would otherwise read back as another tree.
    fn print_operand(&mut self, e: &Expr, p: u8, right: bool)
        ensures
            final(self).wrote(*old(self), operand_text(*e, p as nat, right, old(self).depth, old(self).indent)),
        decreases e, 2nat,
    {
        let q = expr_prec_of(e);
        let is_bin = match &e.kind {
            ExprKind::Binary { .. } => true,
            _ => false,
        };
        if q < p || (right && q == p && is_bin) {
            self.s("(");
            self.print_expr(e);
            self.s(")");
        } else {
            self.print_expr(e);
        }
        assert(self.buf@ =~= old(self).buf@ + operand_text(*e, p as nat, right, old(self).depth, old(self).indent));
    }

    #[verifier::rlimit(100)]
    fn print_expr(&mut self, e: &Expr)
        ensures
            final(self).wrote(*old(self), expr_text(*e, old(self).depth, old(self).indent)),
        decreases e, 1nat,
    {
        let ghost d = self.depth;
        let ghost k = self.indent;
        assert(decreases_to!(e => e.kind));
        match &e.kind {
            ExprKind::IntLit(n) => {
                let t = i64_to_string(*n);
                self.s(t.as_str());
                assert(self.buf@ =~= old(self).buf@ + expr_text(*e, d, k));
            },
            ExprKind::FloatLit(f) => {
                self.s(f.as_str());
                assert(self.buf@ =~= old(self).buf@ + expr_text(*e, d, k));
            },
            ExprKind::BoolLit(b) => {
                self.s(if *b { "true" } else { "false" });
                assert(self.buf@ =~= old(self).buf@ + expr_text(*e, d, k));
            },
            ExprKind::StrLit(s) => {
                self.s("\"");
                self.s(s.as_str());
                self.s("\"");
                assert(self.buf@ =~= old(self).buf@ + expr_text(*e, d, k));
            },
            ExprKind::CharLit(ch) => {
                self.c('\'');
                self.c(*ch);
                self.c('\'');
                assert(self.buf@ =~= old(self).buf@ + expr_text(*e, d, k));
            },
            ExprKind::Path(p) => {
                self.print_path(p);
                assert(self.buf@ =~= old(self).buf@ + expr_text(*e, d, k));
            },
            ExprKind::Unary { op, expr } => {
                self.s(
                    match op {
                        UnaryOp::Neg => "-",
                        UnaryOp::Not => "!",
                        UnaryOp::Deref => "*",
                    },
                );
                self.print_operand(expr, 11, false);
                assert(self.buf@ =~= old(self).buf@ + expr_text(*e, d, k));
            },
            ExprKind::Binary { op, lhs, rhs } => {
                let p = binop_prec_of(*op);
                self.print_operand(lhs, p, false);
                self.s(" ");
                self.s(binop_str(*op));
                self.s(" ");
                self.print_operand(rhs, p, true);
                assert(self.buf@ =~= old(self).buf@ + expr_text(*e, d, k));
            },
            ExprKind::Assign { target, rhs } => {
                self.print_expr(target);
                self.s(" = ");
                self.print_expr(rhs);
                assert(self.buf@ =~= old(self).buf@ + expr_text(*e, d, k));
            },
            ExprKind::CompoundAssign { op, target, rhs } => {
                self.print_expr(target);
                self.s(" ");
                self.s(binop_str(*op));
                self.s("= ");
                self.print_expr(rhs);
                assert(self.buf@ =~= old(self).buf@ + expr_text(*e, d, k));
            },
            ExprKind::If { cond, then, else_ } => {
                self.s("if ");
                self.print_expr(cond);
                self.s(" ");
                self.print_block(then);
                let ghost m1 = self.buf@;
                if let Some(el) = else_ {
                    self.s(" else ");
                    let ghost m2 = self.buf@;
                    assert(decreases_to!(e.kind => e.kind->If_else_));
                    match &el.kind {
                        ExprKind::If { .. } => self.print_expr(el),
                        ExprKind::Block(b) => {
                            assert(decreases_to!(**el => el.kind));
                            self.print_block(b)
                        },
                        _ => {
                            self.s("{ ");
                            self.print_expr(el);
                            self.s(" }");
                        },
                    }
                    assert(self.buf@ =~= m2 + else_text(**el, d, k));
                }
                assert(self.buf@ =~= m1 + match else_ {
                    Some(el) => " else "@ + else_text(**el, d, k),
                    None => Seq::<char>::empty(),
                });
                assert(self.buf@ =~= old(self).buf@ + expr_text(*e, d, k));
            },
            ExprKind::Match { scrutinee, arms } => {
                self.s("match ");
                self.print_expr(scrutinee);
                self.s(" {\n");
                assert(decreases_to!(e.kind => e.kind->Match_arms));
                self.print_arms(arms);
                self.ind();
                self.s("}");
                assert(self.buf@ =~= old(self).buf@ + expr_text(*e, d, k));
            },
            ExprKind::Loop(body) => {
                self.s("loop ");
                self.print_block(body);
                assert(self.buf@ =~= old(self).buf@ + expr_text(*e, d, k));
            },
            ExprKind::While { cond, body } => {
                self.s("while ");
                self.print_expr(cond);
                self.s(" ");
                self.print_block(body);
                assert(self.buf@ =~= old(self).buf@ + expr_text(*e, d, k));
            },
            ExprKind::For { pat, iter, body } => {
                self.s("for ");
                self.print_pattern(pat);
                self.s(" in ");
                self.print_expr(iter);
                self.s(" ");
                self.print_block(body);
                assert(self.buf@ =~= old(self).buf@ + expr_text(*e, d, k));
            },
            ExprKind::Break { value } => {
                self.s("break");
                assert(decreases_to!(e.kind => e.kind->Break_value));
                self.print_opt_expr(" ", value);
                assert(self.buf@ =~= old(self).buf@ + expr_text(*e, d, k));
            },
            ExprKind::Continue => {
                self.s("continue");
                assert(self.buf@ =~= old(self).buf@ + expr_text(*e, d, k));
            },
            ExprKind::Return { value } => {
                self.s("return");
                assert(decreases_to!(e.kind => e.kind->Return_value));
                self.print_opt_expr(" ", value);
                assert(self.buf@ =~= old(self).buf@ + expr_text(*e, d, k));
            },
            _ => self.print_expr_more(e),
        }
    }

    #[verifier::rlimit(100)]
    fn print_expr_more(&mut self, e: &Expr)
        requires
            e.kind is Call || e.kind is MethodCall || e.kind is Field || e.kind is Index || e.kind is StructLit
                || e.kind is TupleLit || e.kind is ArrayLit || e.kind is ArrayRepeat || e.kind is Closure
                || e.kind is TemplateLit || e.kind is Await || e.kind is Cast || e.kind is Block || e.kind is Range
                || e.kind is MacroCall,
        ensures
            final(self).wrote(*old(self), expr_text(*e, old(self).depth, old(self).indent)),
        decreases e, 0nat,
    {
        let ghost d = self.depth;
        let ghost k = self.indent;
        assert(decreases_to!(e => e.kind));
        match &e.kind {
            ExprKind::Call { callee, args } => {
                self.print_operand(callee, 12, false);
                self.s("(");
                assert(decreases_to!(e.kind => e.kind->Call_args));
                self.print_exprs(args);
                self.s(")");
                assert(self.buf@ =~= old(self).buf@ + expr_text(*e, d, k));
            },
            ExprKind::MethodCall { receiver, method, args } => {
                self.print_operand(receiver, 12, false);
                self.s(".");
                self.s(method.as_str());
                self.s("(");
                assert(decreases_to!(e.kind => e.kind->MethodCall_args));
                self.print_exprs(args);
                self.s(")");
                assert(self.buf@ =~= old(self).buf@ + expr_text(*e, d, k));
            },
            ExprKind::Field { base, field } => {
                self.print_operand(base, 12, false);
                self.s(".");
                self.s(field.as_str());
                assert(self.buf@ =~= old(self).buf@ + expr_text(*e, d, k));
            },
            ExprKind::Index { base, index } => {
                self.print_operand(base, 12, false);
                self.s("[");
                self.print_expr(index);
                self.s("]");
                assert(self.buf@ =~= old(self).buf@ + expr_text(*e, d, k));
            },
            ExprKind::StructLit { ty, fields } => {
                self.print_path(ty);
                self.s(" { ");
                let ghost open = self.buf@;
                let mut i: usize = 0;
                assert(self.buf@ =~= open + field_inits_text(fields@.subrange(0, 0), d, k));
                while i < fields.len()
                    invariant
                        i <= fields@.len(),
                        self.depth == d,
                        self.indent == k,
                        e.kind == (ExprKind::StructLit { ty: *ty, fields: *fields }),
                        self.buf@ == open + field_inits_text(fields@.subrange(0, i as int), d, k),
                    decreases fields.len() - i,
                {
                    if i > 0 {
                        self.s(", ");
                    }
                    let ghost before = self.buf@;
                    self.s(fields[i].name.as_str());
                    if let Some(v) = &fields[i].value {
                        self.s(": ");
                        assert(decreases_to!(e => *v)) by {
                            assert(decreases_to!(e => e.kind));
                            assert(decreases_to!(e.kind => e.kind->StructLit_fields));
                            assert(decreases_to!(e.kind->StructLit_fields => e.kind->StructLit_fields@));
                            assert(decreases_to!(e.kind->StructLit_fields@ => e.kind->StructLit_fields@[i as int]));
                            assert(decreases_to!(e.kind->StructLit_fields@[i as int] => e.kind->StructLit_fields@[i as int].value));
                        }
                        self.print_expr(v);
                    }
                    assert(self.buf@ =~= before + field_init_text(fields@[i as int], d, k));
                    proof {
                        let sub = fields@.subrange(0, i + 1);
                        assert(sub.drop_last() =~= fields@.subrange(0, i as int));
                        assert(sub.last() == fields@[i as int]);
                        if i == 0 {
                            assert(sub.len() == 1);
                        }
                        assert(self.buf@ =~= open + field_inits_text(sub, d, k));
                    }
                    i = i + 1;
                }
                assert(fields@.subrange(0, i as int) =~= fields@);
                self.s(" }");
                assert(self.buf@ =~= old(self).buf@ + expr_text(*e, d, k));
            },
            ExprKind::TupleLit(elems) => {
                self.s("(");
                assert(decreases_to!(e.kind => e.kind->TupleLit_0));
                self.print_exprs(elems);
                self.s(")");
                assert(self.buf@ =~= old(self).buf@ + expr_text(*e, d, k));
            },
            ExprKind::ArrayLit(elems) => {
                self.s("[");
                assert(decreases_to!(e.kind => e.kind->ArrayLit_0));
                self.print_exprs(elems);
                self.s("]");
                assert(self.buf@ =~= old(self).buf@ + expr_text(*e, d, k));
            },
            ExprKind::ArrayRepeat { elem, len } => {
                self.s("[");
                self.print_expr(elem);
                self.s("; ");
                self.print_expr(len);
                self.s("]");
                assert(self.buf@ =~= old(self).buf@ + expr_text(*e, d, k));
            },
            ExprKind::Closure { params, ret, body } => {
                self.s("(");
                let ghost open = self.buf@;
                let mut i: usize = 0;
                assert(self.buf@ =~= open + closure_params_text(params@.subrange(0, 0), d, k));
                while i < params.len()
                    invariant
                        i <= params@.len(),
                        self.depth == d,
                        self.indent == k,
                        e.kind == (ExprKind::Closure { params: *params, ret: *ret, body: *body }),
                        self.buf@ == open + closure_params_text(params@.subrange(0, i as int), d, k),
                    decreases params.len() - i,
                {
                    if i > 0 {
                        self.s(", ");
                    }
                    let ghost before = self.buf@;
                    assert(decreases_to!(e => params@[i as int])) by {
                        assert(decreases_to!(e => e.kind));
                        assert(decreases_to!(e.kind => e.kind->Closure_params));
                        assert(decreases_to!(e.kind->Closure_params => e.kind->Closure_params@));
                    }
                    self.print_pattern(&params[i].pat);
                    if let Some(ty) = &params[i].ty {
                        self.s(": ");
                        assert(decreases_to!(params@[i as int] => params@[i as int].ty));
                        self.print_type(ty);
                    }
                    assert(self.buf@ =~= before + closure_param_text(params@[i as int], d, k));
                    proof {
                        let sub = params@.subrange(0, i + 1);
                        assert(sub.drop_last() =~= params@.subrange(0, i as int));
                        assert(sub.last() == params@[i as int]);
                        if i == 0 {
                            assert(sub.len() == 1);
                        }
                        assert(self.buf@ =~= open + closure_params_text(sub, d, k));
                    }
                    i = i + 1;
                }
                assert(params@.subrange(0, i as int) =~= params@);
                self.s(")");
                assert(decreases_to!(e.kind => e.kind->Closure_ret));
                self.print_ret(ret);
                self.s(" => ");
                self.print_expr(body);
                assert(self.buf@ =~= old(self).buf@ + expr_text(*e, d, k));
            },
            ExprKind::TemplateLit { parts } => {
                self.s("`");
                let ghost open = self.buf@;
                let mut i: usize = 0;
                assert(self.buf@ =~= open + template_text(parts@.subrange(0, 0), d, k));
                while i < parts.len()
                    invariant
                        i <= parts@.len(),
                        self.depth == d,
                        self.indent == k,
                        e.kind == (ExprKind::TemplateLit { parts: *parts }),
                        self.buf@ == open + template_text(parts@.subrange(0, i as int), d, k),
                    decreases parts.len() - i,
                {
                    let ghost before = self.buf@;
                    match &parts[i] {
                        TemplatePart::Str(s) => self.s(s.as_str()),
                        TemplatePart::Expr(x) => {
                            self.s("${");
                            assert(decreases_to!(e => **x)) by {
                                assert(decreases_to!(e => e.kind));
                                assert(decreases_to!(e.kind => e.kind->TemplateLit_parts));
                                assert(decreases_to!(e.kind->TemplateLit_parts => e.kind->TemplateLit_parts@));
                                assert(decreases_to!(e.kind->TemplateLit_parts@ => e.kind->TemplateLit_parts@[i as int]));
                            }
                            self.print_expr(x);
                            self.s("}");
                        },
                    }
                    proof {
                        let sub = parts@.subrange(0, i + 1);
                        assert(sub.drop_last() =~= parts@.subrange(0, i as int));
                        assert(sub.last() == parts@[i as int]);
                        assert(self.buf@ =~= open + template_text(sub, d, k));
                    }
                    i = i + 1;
                }
                assert(parts@.subrange(0, i as int) =~= parts@);
                self.s("`");
                assert(self.buf@ =~= old(self).buf@ + expr_text(*e, d, k));
            },
            ExprKind::Await(x) => {
                self.print_expr(x);
                self.s(".await");
                assert(self.buf@ =~= old(self).buf@ + expr_text(*e, d, k));
            },
            ExprKind::Cast { expr, ty } => {
                self.print_expr(expr);
                self.s(" as ");
                self.print_type(ty);
                assert(self.buf@ =~= old(self).buf@ + expr_text(*e, d, k));
            },
            ExprKind::Block(b) => {
                self.print_block(b);
                assert(self.buf@ =~= old(self).buf@ + expr_text(*e, d, k));
            },
            ExprKind::Range { start, end, inclusive } => {
                assert(decreases_to!(e.kind => e.kind->Range_start));
                proof {
                    reveal_strlit("");
                    assert(""@ =~= Seq::<char>::empty());
                }
                self.print_opt_expr("", start);
                self.s(if *inclusive { "..=" } else { ".." });
                assert(decreases_to!(e.kind => e.kind->Range_end));
                self.print_opt_expr("", end);
                assert(self.buf@ =~= old(self).buf@ + expr_text(*e, d, k));
            },
            ExprKind::MacroCall { name, .. } => {
                self.s(name.as_str());
                self.s("!(...)");
                assert(self.buf@ =~= old(self).buf@ + expr_text(*e, d, k));
            },
            _ => {},
        }
    }

    /// The arms, one level deeper than the current depth.
    fn print_arms(&mut self, arms: &Vec<MatchArm>)
        ensures
            final(self).wrote(*old(self), arms_text(arms@, deeper(old(self).depth), old(self).indent)),
        decreases arms, 0nat,
    {
        let d = self.depth;
        let ghost k = self.indent;
        self.push();
        let ghost d1 = deeper(d);
        let mut i: usize = 0;
        assert(self.buf@ =~= old(self).buf@ + arms_text(arms@.subrange(0, 0), d1, k));
        while i < arms.len()
            invariant
                i <= arms@.len(),
                self.depth == d1,
                self.indent == k,
                d == old(self).depth,
                k == old(self).indent,
                d1 == deeper(d),
                self.buf@ == old(self).buf@ + arms_text(arms@.subrange(0, i as int), d1, k),
            decreases arms.len() - i,
        {
            let arm = &arms[i];
            assert(decreases_to!(arms => *arm)) by {
                assert(decreases_to!(arms => arms@));
            }
            let ghost before = self.buf@;
            self.ind();
            self.print_pattern(&arm.pattern);
            assert(decreases_to!(*arm => arm.guard));
            self.print_opt_expr(" if ", &arm.guard);
            self.s(" => ");
            self.print_expr(&arm.body);
            self.s(",\n");
            assert(self.buf@ =~= before + arm_text(*arm, d1, k));
            proof {
                let sub = arms@.subrange(0, i + 1);
                assert(sub.drop_last() =~= arms@.subrange(0, i as int));
                assert(sub.last() == arms@[i as int]);
                assert(self.buf@ =~= old(self).buf@ + arms_text(sub, d1, k));
            }
            i = i + 1;
        }
        assert(arms@.subrange(0, i as int) =~= arms@);
        self.restore(d);
    }

    // ── Struct / enum / trait / impl ─────────────────────────────────────────

    #[verifier::rlimit(100)]
    fn print_struct(&mut self, st: &StructDef)
        ensures
            final(self).wrote(*old(self), struct_text(*st, old(self).depth, old(self).indent)),
        decreases st, 0nat,
    {
        let d = self.depth;
        let ghost k = self.indent;
        let ghost o = old(self).buf@;
        self.ind();
        let ghost mut acc = ind_text(d, k);
        self.vis(st.vis);
        proof { lemma_app(o, acc, vis_text(st.vis)); acc = acc + vis_text(st.vis); }
        self.s("struct ");
        proof { lemma_app(o, acc, "struct "@); acc = acc + "struct "@; }
        self.s(st.name.as_str());
        proof { lemma_app(o, acc, st.name@); acc = acc + st.name@; }
        assert(decreases_to!(st => st.generics));
        self.print_generics(&st.generics);
        proof { lemma_app(o, acc, generics_text(st.generics@, d, k)); acc = acc + generics_text(st.generics@, d, k); }
        self.s(" {\n");
        proof { lemma_app(o, acc, " {\n"@); acc = acc + " {\n"@; }
        self.push();
        let ghost d1 = deeper(d);
        let ghost open = self.buf@;
        let mut i: usize = 0;
        assert(self.buf@ =~= open + struct_fields_text(st.fields@.subrange(0, 0), d1, k));
        while i < st.fields.len()
            invariant
                i <= st.fields@.len(),
                self.depth == d1,
                self.indent == k,
                d == old(self).depth,
                k == old(self).indent,
                d1 == deeper(d),
                self.buf@ == open + struct_fields_text(st.fields@.subrange(0, i as int), d1, k),
            decreases st.fields.len() - i,
        {
            let f = &st.fields[i];
            let ghost before = self.buf@;
            self.ind();
            if f.vis == Visibility::Public {
                self.s("pub ");
            }
            self.s(f.name.as_str());
            self.s(": ");
            assert(decreases_to!(st => f.ty)) by {
                assert(decreases_to!(st => st.fields));
                assert(decreases_to!(st.fields => st.fields@));
                assert(decreases_to!(st.fields@ => st.fields@[i as int]));
            }
            self.print_type(&f.ty);
            self.s(",\n");
            assert(self.buf@ =~= before + struct_field_text(*f, d1, k));
            proof {
                let sub = st.fields@.subrange(0, i + 1);
                assert(sub.drop_last() =~= st.fields@.subrange(0, i as int));
                assert(sub.last() == st.fields@[i as int]);
                assert(self.buf@ =~= open + struct_fields_text(sub, d1, k));
            }
            i = i + 1;
        }
        assert(st.fields@.subrange(0, i as int) =~= st.fields@);
        proof { lemma_app(o, acc, struct_fields_text(st.fields@, d1, k)); acc = acc + struct_fields_text(st.fields@, d1, k); }
        self.restore(d);
        self.ind();
        proof { lemma_app(o, acc, ind_text(d, k)); acc = acc + ind_text(d, k); }
        self.s("}\n");
        proof { lemma_app(o, acc, "}\n"@); acc = acc + "}\n"@; }
        assert(acc == struct_text(*st, d, k));
    }

    #[verifier::rlimit(100)]
    fn print_enum(&mut self, en: &EnumDef)
        ensures
            final(self).wrote(*old(self), enum_text(*en, old(self).depth, old(self).indent)),
        decreases en, 0nat,
    {
        let d = self.depth;
        let ghost k = self.indent;
        let ghost o = old(self).buf@;
        self.ind();
        let ghost mut acc = ind_text(d, k);
        self.vis(en.vis);
        proof { lemma_app(o, acc, vis_text(en.vis)); acc = acc + vis_text(en.vis); }
        self.s("enum ");
        proof { lemma_app(o, acc, "enum "@); acc = acc + "enum "@; }
        self.s(en.name.as_str());
        proof { lemma_app(o, acc, en.name@); acc = acc + en.name@; }
        assert(decreases_to!(en => en.generics));
        self.print_generics(&en.generics);
        proof { lemma_app(o, acc, generics_text(en.generics@, d, k)); acc = acc + generics_text(en.generics@, d, k); }
        self.s(" {\n");
        proof { lemma_app(o, acc, " {\n"@); acc = acc + " {\n"@; }
        self.push();
        let ghost d1 = deeper(d);
        let ghost open = self.buf@;
        let mut i: usize = 0;
        assert(self.buf@ =~= open + variants_text(en.variants@.subrange(0, 0), d1, k));
        while i < en.variants.len()
            invariant
                i <= en.variants@.len(),
                self.depth == d1,
                self.indent == k,
                d == old(self).depth,
                k == old(self).indent,
                d1 == deeper(d),
                self.buf@ == open + variants_text(en.variants@.subrange(0, i as int), d1, k),
            decreases en.variants.len() - i,
        {
            let v = &en.variants[i];
            assert(decreases_to!(en => v.kind)) by {
                assert(decreases_to!(en => en.variants));
                assert(decreases_to!(en.variants => en.variants@));
                assert(decreases_to!(en.variants@ => en.variants@[i as int]));
            }
            let ghost before = self.buf@;
            self.ind();
            self.s(v.name.as_str());
            let ghost m1 = self.buf@;
            let ghost kind_text: Seq<char> = variant_kind_text(v.kind, d1, k);
            match &v.kind {
                VariantKind::Unit => {
                    assert(self.buf@ =~= m1 + kind_text);
                },
                VariantKind::Tuple(ts) => {
                    self.s("(");
                    assert(decreases_to!(v.kind => v.kind->Tuple_0));
                    self.print_types(ts, ", ");
                    self.s(")");
                    assert(self.buf@ =~= m1 + kind_text);
                },
                VariantKind::Struct(fs) => {
                    self.s(" { ");
                    let ghost open2 = self.buf@;
                    let mut j: usize = 0;
                    assert(self.buf@ =~= open2 + variant_fields_text(fs@.subrange(0, 0), d1, k));
                    while j < fs.len()
                        invariant
                            j <= fs@.len(),
                            self.depth == d1,
                            self.indent == k,
                            v.kind == VariantKind::Struct(*fs),
                            decreases_to!(en => v.kind),
                            self.buf@ == open2 + variant_fields_text(fs@.subrange(0, j as int), d1, k),
                        decreases fs.len() - j,
                    {
                        if j > 0 {
                            self.s(", ");
                        }
                        let ghost b2 = self.buf@;
                        self.s(fs[j].name.as_str());
                        self.s(": ");
                        assert(decreases_to!(en => fs@[j as int].ty)) by {
                            assert(decreases_to!(v.kind => v.kind->Struct_0));
                            assert(decreases_to!(v.kind->Struct_0 => v.kind->Struct_0@));
                            assert(decreases_to!(v.kind->Struct_0@ => v.kind->Struct_0@[j as int]));
                        }
                        self.print_type(&fs[j].ty);
                        assert(self.buf@ =~= b2 + variant_field_text(fs@[j as int], d1, k));
                        proof {
                            let sub = fs@.subrange(0, j + 1);
                            assert(sub.drop_last() =~= fs@.subrange(0, j as int));
                            assert(sub.last() == fs@[j as int]);
                            if j == 0 {
                                assert(sub.len() == 1);
                            }
                            assert(self.buf@ =~= open2 + variant_fields_text(sub, d1, k));
                        }
                        j = j + 1;
                    }
                    assert(fs@.subrange(0, j as int) =~= fs@);
                    self.s(" }");
                    assert(self.buf@ =~= m1 + kind_text);
                },
            }
            self.s(",\n");
            assert(self.buf@ =~= before + variant_text(*v, d1, k));
            proof {
                let sub = en.variants@.subrange(0, i + 1);
                assert(sub.drop_last() =~= en.variants@.subrange(0, i as int));
                assert(sub.last() == en.variants@[i as int]);
                assert(self.buf@ =~= open + variants_text(sub, d1, k));
            }
            i = i + 1;
        }
        assert(en.variants@.subrange(0, i as int) =~= en.variants@);
        proof { lemma_app(o, acc, variants_text(en.variants@, d1, k)); acc = acc + variants_text(en.variants@, d1, k); }
        self.restore(d);
        self.ind();
        proof { lemma_app(o, acc, ind_text(d, k)); acc = acc + ind_text(d, k); }
        self.s("}\n");
        proof { lemma_app(o, acc, "}\n"@); acc = acc + "}\n"@; }
        assert(acc == enum_text(*en, d, k));
    }

    #[verifier::rlimit(100)]
    fn print_trait(&mut self, t: &TraitDef)
        ensures
            final(self).wrote(*old(self), trait_text(*t, old(self).depth, old(self).indent)),
        decreases t, 0nat,
    {
        let d = self.depth;
        let ghost k = self.indent;
        let ghost o = old(self).buf@;
        self.ind();
        let ghost mut acc = ind_text(d, k);
        self.vis(t.vis);
        proof { lemma_app(o, acc, vis_text(t.vis)); acc = acc + vis_text(t.vis); }
        self.s("trait ");
        proof { lemma_app(o, acc, "trait "@); acc = acc + "trait "@; }
        self.s(t.name.as_str());
        proof { lemma_app(o, acc, t.name@); acc = acc + t.name@; }
        assert(decreases_to!(t => t.generics));
        self.print_generics(&t.generics);
        proof { lemma_app(o, acc, generics_text(t.generics@, d, k)); acc = acc + generics_text(t.generics@, d, k); }
        self.s(" {\n");
        proof { lemma_app(o, acc, " {\n"@); acc = acc + " {\n"@; }
        self.push();
        let ghost d1 = deeper(d);
        let ghost open = self.buf@;
        let mut i: usize = 0;
        assert(self.buf@ =~= open + trait_items_text(t.items@.subrange(0, 0), d1, k));
        while i < t.items.len()
            invariant
                i <= t.items@.len(),
                self.depth == d1,
                self.indent == k,
                d == old(self).depth,
                k == old(self).indent,
                d1 == deeper(d),
                self.buf@ == open + trait_items_text(t.items@.subrange(0, i as int), d1, k),
            decreases t.items.len() - i,
        {
            let item = &t.items[i];
            assert(decreases_to!(t => *item)) by {
                assert(decreases_to!(t => t.items));
                assert(decreases_to!(t.items => t.items@));
            }
            let ghost before = self.buf@;
            match item {
                TraitItem::FnSig(sig) => {
                    self.ind();
                    let ghost mut a2 = ind_text(d1, k);
                    self.s("fn ");
                    proof { lemma_app(before, a2, "fn "@); a2 = a2 + "fn "@; }
                    self.s(sig.name.as_str());
                    proof { lemma_app(before, a2, sig.name@); a2 = a2 + sig.name@; }
                    assert(decreases_to!(*item => item->FnSig_0));
                    assert(decreases_to!(item->FnSig_0 => item->FnSig_0.generics));
                    self.print_generics(&sig.generics);
                    proof { lemma_app(before, a2, generics_text(sig.generics@, d1, k)); a2 = a2 + generics_text(sig.generics@, d1, k); }
                    self.s("(");
                    proof { lemma_app(before, a2, "("@); a2 = a2 + "("@; }
                    assert(decreases_to!(item->FnSig_0 => item->FnSig_0.params));
                    self.print_params(&sig.params);
                    proof { lemma_app(before, a2, params_text(sig.params@, d1, k)); a2 = a2 + params_text(sig.params@, d1, k); }
                    self.s(")");
                    proof { lemma_app(before, a2, ")"@); a2 = a2 + ")"@; }
                    assert(decreases_to!(item->FnSig_0 => item->FnSig_0.return_ty));
                    self.print_ret(&sig.return_ty);
                    proof { lemma_app(before, a2, ret_text(sig.return_ty, d1, k)); a2 = a2 + ret_text(sig.return_ty, d1, k); }
                    self.s(";\n");
                    proof { lemma_app(before, a2, ";\n"@); a2 = a2 + ";\n"@; }
                    assert(a2 == trait_item_text(*item, d1, k));
                },
                TraitItem::FnDef(f) => {
                    self.print_fn(f);
                    assert(self.buf@ =~= before + trait_item_text(*item, d1, k));
                },
                TraitItem::TypeAssoc { name, .. } => {
                    self.ind();
                    self.s("type ");
                    self.s(name.as_str());
                    self.s(";\n");
                    assert(self.buf@ =~= before + trait_item_text(*item, d1, k));
                },
            }
            assert(self.buf@ =~= before + trait_item_text(*item, d1, k));
            proof {
                let sub = t.items@.subrange(0, i + 1);
                assert(sub.drop_last() =~= t.items@.subrange(0, i as int));
                assert(sub.last() == t.items@[i as int]);
                assert(self.buf@ =~= open + trait_items_text(sub, d1, k));
            }
            i = i + 1;
        }
        assert(t.items@.subrange(0, i as int) =~= t.items@);
        proof { lemma_app(o, acc, trait_items_text(t.items@, d1, k)); acc = acc + trait_items_text(t.items@, d1, k); }
        self.restore(d);
        self.ind();
        proof { lemma_app(o, acc, ind_text(d, k)); acc = acc + ind_text(d, k); }
        self.s("}\n");
        proof { lemma_app(o, acc, "}\n"@); acc = acc + "}\n"@; }
        assert(acc == trait_text(*t, d, k));
    }

    #[verifier::rlimit(100)]
    fn print_impl(&mut self, im: &ImplBlock)
        ensures
            final(self).wrote(*old(self), impl_text(*im, old(self).depth, old(self).indent)),
        decreases im, 0nat,
    {
        let d = self.depth;
        let ghost k = self.indent;
        let ghost o = old(self).buf@;
        self.ind();
        let ghost mut acc = ind_text(d, k);
        self.s("impl");
        proof { lemma_app(o, acc, "impl"@); acc = acc + "impl"@; }
        assert(decreases_to!(im => im.generics));
        self.print_generics(&im.generics);
        proof { lemma_app(o, acc, generics_text(im.generics@, d, k)); acc = acc + generics_text(im.generics@, d, k); }
        let ghost m1 = self.buf@;
        if let Some(tr) = &im.trait_ {
            self.s(" ");
            assert(decreases_to!(im => im.trait_));
            self.print_type(tr);
            self.s(" for ");
        } else {
            self.s(" ");
        }
        let ghost tpart: Seq<char> = impl_trait_text(im.trait_, d, k);
        assert(self.buf@ =~= m1 + tpart);
        proof { lemma_app(o, acc, tpart); acc = acc + tpart; }
        self.print_type(&im.self_ty);
        proof { lemma_app(o, acc, type_text(im.self_ty, d, k)); acc = acc + type_text(im.self_ty, d, k); }
        self.s(" {\n");
        proof { lemma_app(o, acc, " {\n"@); acc = acc + " {\n"@; }
        self.push();
        let ghost d1 = deeper(d);
        let ghost open = self.buf@;
        let mut i: usize = 0;
        assert(self.buf@ =~= open + impl_items_text(im.items@.subrange(0, 0), d1, k));
        while i < im.items.len()
            invariant
                i <= im.items@.len(),
                self.depth == d1,
                self.indent == k,
                d == old(self).depth,
                k == old(self).indent,
                d1 == deeper(d),
                self.buf@ == open + impl_items_text(im.items@.subrange(0, i as int), d1, k),
            decreases im.items.len() - i,
        {
            let item = &im.items[i];
            assert(decreases_to!(im => *item)) by {
                assert(decreases_to!(im => im.items));
                assert(decreases_to!(im.items => im.items@));
            }
            let ghost before = self.buf@;
            match item {
                ImplItem::Fn(f) => {
                    self.print_fn(f);
                    assert(self.buf@ =~= before + impl_item_text(*item, d1, k));
                },
                ImplItem::Const(c) => {
                    self.print_const_item(c);
                    assert(self.buf@ =~= before + impl_item_text(*item, d1, k));
                },
                ImplItem::TypeAssoc { name, ty, .. } => {
                    self.ind();
                    self.s("type ");
                    self.s(name.as_str());
                    self.s(" = ");
                    self.print_type(ty);
                    self.s(";\n");
                    assert(self.buf@ =~= before + impl_item_text(*item, d1, k));
                },
            }
            assert(self.buf@ =~= before + impl_item_text(*item, d1, k));
            proof {
                let sub = im.items@.subrange(0, i + 1);
                assert(sub.drop_last() =~= im.items@.subrange(0, i as int));
                assert(sub.last() == im.items@[i as int]);
                assert(self.buf@ =~= open + impl_items_text(sub, d1, k));
            }
            i = i + 1;
        }
        assert(im.items@.subrange(0, i as int) =~= im.items@);
        proof { lemma_app(o, acc, impl_items_text(im.items@, d1, k)); acc = acc + impl_items_text(im.items@, d1, k); }
        self.restore(d);
        self.ind();
        proof { lemma_app(o, acc, ind_text(d, k)); acc = acc + ind_text(d, k); }
        self.s("}\n");
        proof { lemma_app(o, acc, "}\n"@); acc = acc + "}\n"@; }
        assert(acc == impl_text(*im, d, k));
    }

    fn print_type_alias(&mut self, a: &TypeAlias)
        ensures
            final(self).wrote(*old(self), type_alias_text(*a, old(self).depth, old(self).indent)),
        decreases a, 0nat,
    {
        let ghost d = self.depth;
        let ghost k = self.indent;
        let ghost o = old(self).buf@;
        self.ind();
        let ghost mut acc = ind_text(d, k);
        self.vis(a.vis);
        proof { lemma_app(o, acc, vis_text(a.vis)); acc = acc + vis_text(a.vis); }
        self.s("type ");
        proof { lemma_app(o, acc, "type "@); acc = acc + "type "@; }
        self.s(a.name.as_str());
        proof { lemma_app(o, acc, a.name@); acc = acc + a.name@; }
        assert(decreases_to!(a => a.generics));
        self.print_generics(&a.generics);
        proof { lemma_app(o, acc, generics_text(a.generics@, d, k)); acc = acc + generics_text(a.generics@, d, k); }
        self.s(" = ");
        proof { lemma_app(o, acc, " = "@); acc = acc + " = "@; }
        self.print_type(&a.ty);
        proof { lemma_app(o, acc, type_text(a.ty, d, k)); acc = acc + type_text(a.ty, d, k); }
        self.s(";\n");
        proof { lemma_app(o, acc, ";\n"@); acc = acc + ";\n"@; }
        assert(acc == type_alias_text(*a, d, k));
    }

    fn print_import(&mut self, d: &ImportDecl)
        ensures
            final(self).wrote(*old(self), import_text(*d, old(self).depth, old(self).indent)),
    {
        self.ind();
        self.s("import ");
        let ghost m1 = self.buf@;
        match &d.items {
            ImportItems::Named(names) => {
                self.s("{ ");
                let ghost open = self.buf@;
                let mut i: usize = 0;
                assert(self.buf@ =~= open + imported_list_text(names@.subrange(0, 0)));
                while i < names.len()
                    invariant
                        i <= names@.len(),
                        self.depth == old(self).depth,
                        self.indent == old(self).indent,
                        self.buf@ == open + imported_list_text(names@.subrange(0, i as int)),
                    decreases names.len() - i,
                {
                    if i > 0 {
                        self.s(", ");
                    }
                    let ghost before = self.buf@;
                    self.s(names[i].name.as_str());
                    if let Some(alias) = &names[i].alias {
                        self.s(" as ");
                        self.s(alias.as_str());
                    }
                    assert(self.buf@ =~= before + imported_text(names@[i as int]));
                    proof {
                        let sub = names@.subrange(0, i + 1);
                        assert(sub.drop_last() =~= names@.subrange(0, i as int));
                        assert(sub.last() == names@[i as int]);
                        if i == 0 {
                            assert(sub.len() == 1);
                        }
                        assert(self.buf@ =~= open + imported_list_text(sub));
                    }
                    i = i + 1;
                }
                assert(names@.subrange(0, i as int) =~= names@);
                self.s(" } ");
            },
            ImportItems::Glob => self.s("* "),
        }
        assert(self.buf@ =~= m1 + match d.items {
            ImportItems::Named(ns) => "{ "@ + imported_list_text(ns@) + " } "@,
            ImportItems::Glob => "* "@,
        });
        self.s("from \"");
        self.s(d.source.as_str());
        self.s("\";\n");
        assert(self.buf@ =~= old(self).buf@ + import_text(*d, old(self).depth, old(self).indent));
    }

    fn print_mod(&mut self, m: &ModDecl)
        ensures
            final(self).wrote(*old(self), mod_text(*m, old(self).depth, old(self).indent)),
        decreases m, 0nat,
    {
        let d = self.depth;
        let ghost k = self.indent;
        self.ind();
        self.vis(m.vis);
        self.s("mod ");
        self.s(m.name.as_str());
        let ghost m1 = self.buf@;
        if let Some(body) = &m.body {
            self.s(" {\n");
            self.push();
            assert(decreases_to!(m => m.body));
            self.print_module(body);
            self.restore(d);
            self.ind();
            self.s("}\n");
        } else {
            self.s(";\n");
        }
        assert(self.buf@ =~= m1 + match m.body {
            Some(body) => " {\n"@ + module_text(body, deeper(d), k) + ind_text(d, k) + "}\n"@,
            None => ";\n"@,
        });
        assert(self.buf@ =~= old(self).buf@ + mod_text(*m, d, k));
    }

    fn print_const_item(&mut self, c: &ConstItem)
        ensures
            final(self).wrote(*old(self), const_text(*c, old(self).depth, old(self).indent)),
        decreases c, 0nat,
    {
        self.ind();
        self.vis(c.vis);
        self.s("const ");
        self.s(c.name.as_str());
        assert(decreases_to!(c => c.ty));
        self.print_ret(&c.ty);
        self.s(" = ");
        self.print_expr(&c.value);
        self.s(";\n");
        assert(self.buf@ =~= old(self).buf@ + const_text(*c, old(self).depth, old(self).indent));
    }
}

} // verus!
