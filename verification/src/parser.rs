//! Recursive-descent parser for Selvr.
//!
//! TypeScript-like syntax:
//!   - Return types:    `fn foo(x: i32): i32 { ... }`   (colon, not `->`)
//!   - Immutable:       `const x = 5;`, mutable: `let x = 5;`
//!   - Closures:        `(x: i32) => x * 2`
//!   - Template lits:   `` `Hello ${name}!` ``
//!   - Visibility:      `export fn` / `export const` / `export struct`
//!   - Imports:         `import { X, Y } from "module"`
//!   - Strict equality: `===` / `!==`
//!   - Enum variants:   `Enum.Variant` (dot, not `::`)
//!
//! Operator precedence (low → high): assignment, range, `||`, `&&`,
//! equality, comparison, additive, multiplicative, unary, postfix, primary.
//!
//! Every parsing routine either makes progress through the token list or
//! reports and stops, so parsing always terminates; the termination measure
//! is the number of tokens left, then the routine's place in the grammar.

use vstd::prelude::*;
use crate::ast::{
    Attr, BinaryOp, Block, ClosureParam, ConstItem, EnumDef, EnumVariant, Expr, ExprKind, FnDef,
    GenericParam, ImplBlock, ImplItem, ImportDecl, ImportItems, ImportedName, Item, LetStmt,
    LitPat, MatchArm, ModDecl, Module, Param, Path, PathSegment, Pattern, PatternKind, Stmt,
    StructDef, StructField, TemplatePart, TraitDef, TraitItem, Type, TypeAlias, UnaryOp,
    VariantKind, Visibility,
};
use crate::text::{push_str, string_of, u64_to_string};
use crate::lexer::lex_step;
use crate::fmt::printer::{binop_text, lemma_printed_operator_reads_back};
use crate::token::{span_string, span_text, Span, Spanned, Token, TokenOf};

verus! {

/// Parse errors (recoverable: parsing continues after each).
#[derive(Debug, Clone)]
pub enum ParseError {
    Expected { expected: &'static str, found: String, span: Span },
    UnexpectedEof { expected: &'static str },
    TrailingTokens { span: Span },
}

impl ParseError {
    pub open spec fn message_spec(self) -> Seq<char> {
        match self {
            ParseError::Expected { expected, found, span } => "expected "@ + expected@
                + ", found "@ + found@ + " at "@ + span_text(span),
            ParseError::UnexpectedEof { expected } => "unexpected end of file; expected "@
                + expected@,
            ParseError::TrailingTokens { span } => "trailing tokens after end of item at "@
                + span_text(span),
        }
    }

    /// The error's human-readable message.
    pub fn message(&self) -> (m: String)
        ensures
            m@ == self.message_spec(),
    {
        let mut m = String::new();
        match self {
            ParseError::Expected { expected, found, span } => {
                push_str(&mut m, "expected ");
                push_str(&mut m, expected);
                push_str(&mut m, ", found ");
                push_str(&mut m, found.as_str());
                push_str(&mut m, " at ");
                let t = span_string(*span);
                push_str(&mut m, t.as_str());
            },
            ParseError::UnexpectedEof { expected } => {
                push_str(&mut m, "unexpected end of file; expected ");
                push_str(&mut m, expected);
            },
            ParseError::TrailingTokens { span } => {
                push_str(&mut m, "trailing tokens after end of item at ");
                let t = span_string(*span);
                push_str(&mut m, t.as_str());
            },
        }
        m
    }

    /// An "expected X, found Y" error for the token `found`.
    pub fn expected(expected: &'static str, found: &Token, span: Span) -> (e: ParseError)
        ensures
            e matches ParseError::Expected { expected: x, found: f, span: s } && x == expected
                && f@ == found.description() && s == span,
    {
        ParseError::Expected { expected, found: string_of(found.describe()), span }
    }
}

/// The tokens a parser works on: the input without trivia.
pub open spec fn without_trivia(ts: Seq<Spanned<Token>>) -> Seq<Spanned<Token>>
    decreases ts.len(),
{
    if ts.len() == 0 {
        ts
    } else if ts.last().node.is_trivia_spec() {
        without_trivia(ts.drop_last())
    } else {
        without_trivia(ts.drop_last()).push(ts.last())
    }
}

/// Where the `)` closing a parenthesis open at depth `depth` lies, scanning
/// from `i`; none where the tokens or the file end first.
pub open spec fn paren_close(t: Seq<Spanned<Token>>, i: int, depth: int) -> Option<int>
    decreases t.len() - i,
{
    if i < 0 || i >= t.len() {
        None
    } else {
        match t[i].node {
            TokenOf::Eof => None,
            TokenOf::LParen => paren_close(t, i + 1, depth + 1),
            TokenOf::RParen => if depth > 0 {
                paren_close(t, i + 1, depth - 1)
            } else {
                Some(i)
            },
            _ => paren_close(t, i + 1, depth),
        }
    }
}

/// Whether `=>` comes from `j` on before any `{` or the end.
pub open spec fn arrow_after(t: Seq<Spanned<Token>>, j: int) -> bool
    decreases t.len() - j,
{
    if j < 0 || j >= t.len() {
        false
    } else {
        match t[j].node {
            TokenOf::FatArrow => true,
            TokenOf::LBrace | TokenOf::Eof => false,
            _ => arrow_after(t, j + 1),
        }
    }
}

/// Whether the `(` at `pos` starts a closure: its matching `)`, then
/// optionally `:`, is followed by `=>` before any `{` or the end.
pub open spec fn closure_start(t: Seq<Spanned<Token>>, pos: int) -> bool {
    &&& 0 <= pos < t.len()
    &&& t[pos].node is LParen
    &&& match paren_close(t, pos + 1, 0) {
        Some(c) => arrow_after(t, if c + 1 < t.len() && t[c + 1].node is Colon { c + 2 } else { c + 1 }),
        None => false,
    }
}

pub struct Parser {
    tokens: Vec<Spanned<Token>>,
    pos: usize,
    errors: Vec<ParseError>,
    file_id: u32,
    eof: Token,
}

/// Dropping the comments from tokens that are comments or end-of-input
/// leaves only end-of-input tokens.
pub proof fn lemma_without_trivia_only_eof(ts: Seq<Spanned<Token>>)
    requires
        forall|i: int| 0 <= i < ts.len() ==> (#[trigger] ts[i]).node.is_trivia_spec() || ts[i].node is Eof,
    ensures
        forall|i: int| 0 <= i < without_trivia(ts).len() ==> (#[trigger] without_trivia(ts)[i]).node is Eof,
    decreases ts.len(),
{
    if ts.len() > 0 {
        let d = ts.drop_last();
        assert forall|i: int| 0 <= i < d.len() implies (#[trigger] d[i]).node.is_trivia_spec() || d[i].node is Eof by {
            assert(d[i] == ts[i]);
        }
        lemma_without_trivia_only_eof(d);
        assert(ts.last() == ts[ts.len() - 1]);
    }
}

/// The operator tokens of binding level `level`: 1 multiplicative, 2
/// additive, 3 comparison, 4 equality, 5 `&&`, 6 `||`.
pub open spec fn level_op<S>(level: nat, t: TokenOf<S>) -> bool {
    if level == 1 {
        t is Star || t is Slash || t is Percent
    } else if level == 2 {
        t is Plus || t is Minus
    } else if level == 3 {
        t is Lt || t is Gt || t is LtEq || t is GtEq
    } else if level == 4 {
        t is EqEq || t is EqEqLoose || t is BangEq || t is BangEqLoose
    } else if level == 5 {
        t is AmpAmp
    } else if level == 6 {
        t is PipePipe
    } else {
        false
    }
}

/// An expression parsed up to binding level `level` goes on at `t`: a
/// postfix operator, or an operator of that level or a tighter one.
pub open spec fn continues<S>(level: nat, t: TokenOf<S>) -> bool {
    ||| t is LParen || t is Dot || t is LBracket || t is Await || t is As || t is Question
    ||| (level >= 1 && level_op(1, t))
    ||| (level >= 2 && level_op(2, t))
    ||| (level >= 3 && level_op(3, t))
    ||| (level >= 4 && level_op(4, t))
    ||| (level >= 5 && level_op(5, t))
    ||| (level >= 6 && level_op(6, t))
}

/// Parsing reads an operator back as the one printed: where the operator
/// token of a literal pair denotes what the printed text of `op` lexes to,
/// the parsed binary expression carries `op`.
pub proof fn lemma_parse_reads_printed_operator(p: Parser, level: nat, op: BinaryOp)
    requires
        p.pair_at(level),
        binop_of(p.token_at(p.position() + 1)) == binop_of(lex_step(binop_text(op), 0, 0).tok),
    ensures
        p.pair_expr().kind is Binary,
        p.pair_expr().kind->Binary_op == op,
{
    lemma_printed_operator_reads_back(op);
}

/// The prefix operator a token denotes, if any.
pub open spec fn unary_of<S>(t: TokenOf<S>) -> Option<UnaryOp> {
    match t {
        TokenOf::Bang => Some(UnaryOp::Not),
        TokenOf::Minus => Some(UnaryOp::Neg),
        _ => None,
    }
}

/// The binary operator a token denotes, if any.
pub open spec fn binop_of<S>(t: TokenOf<S>) -> Option<BinaryOp> {
    match t {
        TokenOf::PipePipe => Some(BinaryOp::Or),
        TokenOf::AmpAmp => Some(BinaryOp::And),
        TokenOf::EqEq | TokenOf::EqEqLoose => Some(BinaryOp::Eq),
        TokenOf::BangEq | TokenOf::BangEqLoose => Some(BinaryOp::Ne),
        TokenOf::Lt => Some(BinaryOp::Lt),
        TokenOf::LtEq => Some(BinaryOp::Le),
        TokenOf::Gt => Some(BinaryOp::Gt),
        TokenOf::GtEq => Some(BinaryOp::Ge),
        TokenOf::Plus => Some(BinaryOp::Add),
        TokenOf::Minus => Some(BinaryOp::Sub),
        TokenOf::Star => Some(BinaryOp::Mul),
        TokenOf::Slash => Some(BinaryOp::Div),
        TokenOf::Percent => Some(BinaryOp::Rem),
        TokenOf::Amp => Some(BinaryOp::BitAnd),
        TokenOf::Pipe => Some(BinaryOp::BitOr),
        TokenOf::Caret => Some(BinaryOp::BitXor),
        TokenOf::LtLt => Some(BinaryOp::Shl),
        TokenOf::GtGt => Some(BinaryOp::Shr),
        _ => None,
    }
}

/// The expression that a literal token is by itself.
pub open spec fn lit_expr_kind(t: Token) -> Option<ExprKind> {
    match t {
        TokenOf::IntLit(v) => Some(ExprKind::IntLit(v)),
        TokenOf::FloatLit(v) => Some(ExprKind::FloatLit(v)),
        TokenOf::BoolLit(v) => Some(ExprKind::BoolLit(v)),
        TokenOf::StrLit(v) => Some(ExprKind::StrLit(v)),
        TokenOf::CharLit(v) => Some(ExprKind::CharLit(v)),
        _ => None,
    }
}

/// The pattern that a token is by itself: a name (`_` for the wildcard) or
/// an integer, boolean or string literal.
pub open spec fn token_pattern(t: Token) -> Option<PatternKind> {
    match t {
        TokenOf::Ident(name) => if name@ == seq!['_'] {
            Some(PatternKind::Wildcard)
        } else {
            Some(PatternKind::Ident { name, mutable: false })
        },
        TokenOf::IntLit(v) => Some(PatternKind::Literal(LitPat::Int(v))),
        TokenOf::BoolLit(v) => Some(PatternKind::Literal(LitPat::Bool(v))),
        TokenOf::StrLit(v) => Some(PatternKind::Literal(LitPat::Str(v))),
        _ => None,
    }
}

/// A token that a pattern can start with.
pub open spec fn opens_pattern(t: Token) -> bool {
    token_pattern(t) is Some || t is LBracket || t is LParen
}

/// The name of the primitive type that a keyword token names.
pub open spec fn prim_type_name(t: Token) -> Option<Seq<char>> {
    match t {
        TokenOf::KwI32 => Some("i32"@),
        TokenOf::KwI64 => Some("i64"@),
        TokenOf::KwF32 => Some("f32"@),
        TokenOf::KwF64 => Some("f64"@),
        TokenOf::KwBoolean => Some("boolean"@),
        TokenOf::KwString => Some("string"@),
        TokenOf::KwChar => Some("char"@),
        TokenOf::KwNumber => Some("f64"@),
        _ => None,
    }
}

/// A token that a type can start with.
pub open spec fn opens_type(t: Token) -> bool {
    ||| prim_type_name(t) is Some
    ||| t is KwVoid
    ||| t is Ident
    ||| t is LParen
    ||| t is LBracket
}

/// A token that an item, its attributes or its visibility can start with.
pub open spec fn opens_item(t: Token) -> bool {
    ||| t is Hash
    ||| t is Export
    ||| t is Async
    ||| t is Fn
    ||| t is Struct
    ||| t is Enum
    ||| t is Trait
    ||| t is Impl
    ||| t is Type
    ||| t is Import
    ||| t is Mod
    ||| t is Const
}

/// A token at which no expression goes on.
pub open spec fn closes_expr(t: Token) -> bool {
    ||| t is Semi
    ||| t is Comma
    ||| t is RParen
    ||| t is RBracket
    ||| t is RBrace
    ||| t is Eof
}

impl Parser {
    pub closed spec fn toks(self) -> Seq<Spanned<Token>> {
        self.tokens@
    }

    pub closed spec fn position(self) -> int {
        self.pos as int
    }

    pub closed spec fn errs(self) -> Seq<ParseError> {
        self.errors@
    }

    pub closed spec fn wf(self) -> bool {
        &&& self.pos <= self.tokens.len()
        &&& self.eof is Eof
    }

    closed spec fn rem(self) -> int {
        self.tokens@.len() - self.pos
    }

    /// The current token (`Eof` past the end).
    pub closed spec fn peek_spec(self) -> Token {
        if self.pos < self.tokens.len() {
            self.tokens@[self.pos as int].node
        } else {
            TokenOf::Eof
        }
    }

    /// The token at `i` (`Eof` past the end).
    pub closed spec fn token_at(self, i: int) -> Token {
        if 0 <= i < self.tokens.len() {
            self.tokens@[i].node
        } else {
            TokenOf::Eof
        }
    }

    /// The span of the token at `i`; past the end, the empty span at the end
    /// of the last token.
    pub closed spec fn span_at(self, i: int) -> Span {
        if 0 <= i < self.tokens@.len() {
            self.tokens@[i].span
        } else {
            Span {
                start: if self.tokens@.len() > 0 { self.tokens@.last().span.end } else { 0 },
                end: if self.tokens@.len() > 0 { self.tokens@.last().span.end } else { 0 },
                file_id: self.file_id,
            }
        }
    }

    /// The current token is a type by itself: a primitive keyword, `void`,
    /// or a name that no `<` follows.
    pub closed spec fn at_lone_type(self) -> bool {
        ||| prim_type_name(self.peek_spec()) is Some
        ||| self.peek_spec() is KwVoid
        ||| (self.peek_spec() is Ident && !(self.token_at(self.pos + 1) is Lt))
    }

    /// `t` is the type that the current token is by itself.
    pub closed spec fn lone_type(self, t: Type) -> bool {
        match self.peek_spec() {
            TokenOf::KwVoid => t == Type::Void(self.span_at(self.pos as int)),
            TokenOf::Ident(n) => t matches Type::Named { name, args, span } && name@ == n@ && args@.len() == 0
                && span == self.span_at(self.pos as int).merged(self.span_at(self.pos + 1)),
            k => t matches Type::Named { name, args, span } && prim_type_name(k) == Some(name@) && args@.len() == 0
                && span == self.span_at(self.pos as int),
        }
    }

    /// The tokens from here are `#`, `[`, a name and `]`, and no `#`
    /// follows them.
    pub closed spec fn at_bare_attr(self) -> bool {
        &&& self.peek_spec() is Hash
        &&& self.token_at(self.pos + 1) is LBracket
        &&& self.token_at(self.pos + 2) is Ident
        &&& self.token_at(self.pos + 3) is RBracket
        &&& !(self.token_at(self.pos + 4) is Hash)
    }

    /// `a` is the attribute `#[name]` that starts here: that name, no
    /// arguments, spanning from `#` to `]`.
    pub closed spec fn bare_attr(self, a: Attr) -> bool {
        &&& self.token_at(self.pos + 2) == TokenOf::Ident(a.name)
        &&& a.args@.len() == 0
        &&& a.span == self.span_at(self.pos as int).merged(self.span_at(self.pos + 3))
    }

    /// Where the name stands after an optional leading keyword `kw`.
    pub closed spec fn name_pos(self, kw: Token) -> int {
        if self.peek_spec().kind_spec() == kw.kind_spec() {
            self.pos + 1
        } else {
            self.pos as int
        }
    }

    /// The current token is a literal and the one after it ends an
    /// expression.
    pub closed spec fn at_lone_literal(self) -> bool {
        &&& self.pos < self.tokens.len()
        &&& lit_expr_kind(self.peek_spec()) is Some
        &&& closes_expr(self.token_at(self.pos + 1))
    }

    /// At `i` stands a literal, and the token after it does not carry an
    /// expression of binding level `level` on.
    pub closed spec fn lit_then(self, i: int, level: nat) -> bool {
        &&& 0 <= i < self.tokens.len()
        &&& lit_expr_kind(self.token_at(i)) is Some
        &&& !continues(level, self.token_at(i + 1))
    }

    /// From here: a literal, an operator of binding level `level`, and a
    /// literal that nothing of that level or tighter follows.
    pub closed spec fn pair_at(self, level: nat) -> bool {
        &&& level >= 1
        &&& self.lit_then(self.pos as int, (level - 1) as nat)
        &&& level_op(level, self.token_at(self.pos + 1))
        &&& self.lit_then(self.pos + 2, level)
    }

    /// The binding level of the operator after the token here (0 if none).
    pub closed spec fn pair_level(self) -> nat {
        let t = self.token_at(self.pos + 1);
        if level_op(1, t) {
            1
        } else if level_op(2, t) {
            2
        } else if level_op(3, t) {
            3
        } else if level_op(4, t) {
            4
        } else if level_op(5, t) {
            5
        } else if level_op(6, t) {
            6
        } else {
            0
        }
    }

    /// From here: a literal, a binary operator and a literal, then a token
    /// that ends the expression.
    pub closed spec fn closed_pair(self) -> bool {
        &&& self.pair_level() >= 1
        &&& self.pair_at(self.pair_level())
        &&& closes_expr(self.token_at(self.pos + 3))
    }

    /// Parsing at binding level `level` or looser at a closed pair whose
    /// operator binds at most as loosely gives its binary expression.
    pub closed spec fn gives_closed_pair(self, old: Parser, r: Option<Expr>, level: nat) -> bool {
        old.closed_pair() && old.pair_level() <= level ==> r == Some(old.pair_expr()) && self.pos == old.pos + 3
            && self.errors == old.errors
    }

    /// From here: a prefix operator and a literal it applies to.
    pub closed spec fn at_prefixed_literal(self) -> bool {
        &&& unary_of(self.peek_spec()) is Some
        &&& self.lit_then(self.pos + 1, 0)
    }

    /// The prefix operator here applied to the literal after it.
    pub closed spec fn prefixed_literal(self) -> Expr {
        Expr {
            kind: ExprKind::Unary {
                op: unary_of(self.peek_spec())->0,
                expr: Box::new(self.literal_at(self.pos + 1)),
            },
            span: self.span_at(self.pos as int).merged(self.literal_at(self.pos + 1).span),
        }
    }

    /// The binary expression of the operator and the two literals here.
    pub closed spec fn pair_expr(self) -> Expr {
        let l = self.literal_at(self.pos as int);
        let r = self.literal_at(self.pos + 2);
        Expr {
            kind: ExprKind::Binary { op: binop_of(self.token_at(self.pos + 1))->0, lhs: Box::new(l), rhs: Box::new(r) },
            span: l.span.merged(r.span),
        }
    }

    /// Parsing up to binding level `level` at a literal it does not go on
    /// from gives that literal, consuming its token.
    pub closed spec fn gives_literal(self, old: Parser, r: Option<Expr>, level: nat) -> bool {
        old.lit_then(old.pos as int, level) ==> r == Some(old.literal_at(old.pos as int)) && self.pos == old.pos + 1
            && self.errors == old.errors
    }

    /// Parsing at binding level `level` at a literal, an operator of that
    /// level and a literal gives their binary expression, consuming three
    /// tokens; its operator is the one the operator token denotes.
    pub closed spec fn gives_pair(self, old: Parser, r: Option<Expr>, level: nat) -> bool {
        old.pair_at(level) ==> r == Some(old.pair_expr()) && self.pos == old.pos + 3 && self.errors == old.errors
    }

    /// The `(` here starts a closure.
    pub closed spec fn opens_closure(self) -> bool {
        closure_start(self.tokens@, self.pos as int)
    }

    /// The literal at `i` as an expression by itself.
    pub closed spec fn literal_at(self, i: int) -> Expr {
        Expr { kind: lit_expr_kind(self.token_at(i))->Some_0, span: self.tokens@[i].span }
    }

    /// The tokens from here are `(`, a literal and `)`, and no closure
    /// starts here.
    pub closed spec fn at_paren_literal(self) -> bool {
        &&& self.peek_spec() is LParen
        &&& !self.opens_closure()
        &&& self.pos + 1 < self.tokens.len()
        &&& lit_expr_kind(self.token_at(self.pos + 1)) is Some
        &&& self.token_at(self.pos + 2) is RParen
    }

    /// The tokens from here are `(` and `)`, not followed by `=>`, and no
    /// closure starts here.
    pub closed spec fn at_unit(self) -> bool {
        &&& self.peek_spec() is LParen
        &&& !self.opens_closure()
        &&& self.token_at(self.pos + 1) is RParen
        &&& !(self.token_at(self.pos + 2) is FatArrow)
    }

    /// The expression that the current literal token is by itself.
    pub closed spec fn lone_literal(self) -> Expr {
        Expr { kind: lit_expr_kind(self.peek_spec())->Some_0, span: self.tokens@[self.pos as int].span }
    }

    /// Parsing a lone literal gives it, consumes that one token and reports
    /// nothing.
    pub closed spec fn gives_lone_literal(self, old: Parser, r: Option<Expr>) -> bool {
        old.at_lone_literal() ==> r == Some(old.lone_literal()) && self.pos == old.pos + 1 && self.errors
            == old.errors
    }

    /// What every parsing routine keeps: the token list, the file, and a
    /// position that only moves forward.
    closed spec fn steps(self, old: Parser) -> bool {
        &&& self.wf()
        &&& self.tokens@ == old.tokens@
        &&& self.file_id == old.file_id
        &&& old.pos <= self.pos
        &&& grows(old.errors@, self.errors@)
    }

    /// A parser over `tokens` with trivia removed.
    pub fn new(tokens: Vec<Spanned<Token>>, file_id: u32) -> (p: Parser)
        ensures
            p.wf(),
            p.toks() == without_trivia(tokens@),
            p.position() == 0,
            p.errs() == Seq::<ParseError>::empty(),
    {
        let mut kept: Vec<Spanned<Token>> = Vec::new();
        let mut tokens = tokens;
        let ghost all = tokens@;
        let mut rest: Vec<Spanned<Token>> = Vec::new();
        // reverse, then pop in order (moving the tokens without cloning)
        while tokens.len() > 0
            invariant
                all == tokens@ + rest@.reverse(),
            decreases tokens.len(),
        {
            let ghost before = tokens@;
            let t = tokens.pop().unwrap();
            rest.push(t);
            assert(all =~= tokens@ + rest@.reverse());
        }
        assert(all =~= rest@.reverse());
        while rest.len() > 0
            invariant
                all == (kept_src_prefix(all, rest@.len() as int)) + rest@.reverse(),
                kept@ == without_trivia(kept_src_prefix(all, rest@.len() as int)),
                rest@.len() <= all.len(),
            decreases rest.len(),
        {
            let ghost pre = kept_src_prefix(all, rest@.len() as int);
            let t = rest.pop().unwrap();
            proof {
                lemma_prefix_step(all, rest@.len() as int + 1);
            }
            proof {
                assert(pre.push(t).drop_last() =~= pre);
            }
            if !t.node.is_trivia() {
                kept.push(t);
            }
            assert(all =~= kept_src_prefix(all, rest@.len() as int) + rest@.reverse());
        }
        assert(kept_src_prefix(all, 0) =~= all);
        Parser { tokens: kept, pos: 0, errors: Vec::new(), file_id, eof: TokenOf::Eof }
    }

    /// Parses a whole module; returns it with every error met.
    pub fn parse(self) -> (r: (Module, Vec<ParseError>))
        requires
            self.wf(),
        ensures
            self.errs().is_prefix_of(r.1@),
            (forall|i: int| self.position() <= i < self.toks().len() ==> (#[trigger] self.toks()[i]).node is Eof) ==> r.0.items@.len()
                == 0 && r.1@ == self.errs(),
    {
        proof {
            if forall|i: int| self.position() <= i < self.toks().len() ==> (#[trigger] self.toks()[i]).node is Eof {
                if self.pos < self.tokens.len() {
                    assert(self.toks()[self.pos as int].node is Eof);
                }
            }
            assert((forall|i: int| self.position() <= i < self.toks().len() ==> (#[trigger] self.toks()[i]).node is Eof) ==> self.peek_spec() is Eof);
        }
        let mut this = self;
        let start = this.current_span();
        let mut items: Vec<Item> = Vec::new();
        let ghost e0 = this.errors@;
        let ghost done = this.peek_spec() is Eof;
        while !this.at_eof()
            invariant
                this.wf(),
                grows(e0, this.errors@),
                done ==> items@.len() == 0 && this.errors@ == e0 && this.peek_spec() is Eof,
            decreases this.rem(),
        {
            match this.parse_item() {
                Some(item) => items.push(item),
                None => {
                    this.advance();
                },
            }
        }
        assert(e0 =~= this.errors@.subrange(0, e0.len() as int));
        let end = this.current_span();
        let span = start.merge(end);
        (Module { items, span }, this.errors)
    }

    // ── Token navigation ─────────────────────────────────────────────────────

    fn peek(&self) -> (t: &Token)
        requires
            self.wf(),
        ensures
            *t == self.peek_spec(),
    {
        if self.pos < self.tokens.len() {
            &self.tokens[self.pos].node
        } else {
            &self.eof
        }
    }

    fn peek_span(&self) -> (r: Span)
        ensures
            r == self.span_at(self.pos as int),
            r == if self.pos < self.tokens@.len() {
                self.tokens@[self.pos as int].span
            } else {
                Span {
                    start: if self.tokens@.len() > 0 { self.tokens@.last().span.end } else { 0 },
                    end: if self.tokens@.len() > 0 { self.tokens@.last().span.end } else { 0 },
                    file_id: self.file_id,
                }
            },
    {
        if self.pos < self.tokens.len() {
            self.tokens[self.pos].span
        } else {
            let last = if self.tokens.len() > 0 {
                self.tokens[self.tokens.len() - 1].span.end
            } else {
                0
            };
            Span::new(last, last, self.file_id)
        }
    }

    fn current_span(&self) -> (r: Span)
        ensures
            r == self.span_at(self.pos as int),
    {
        self.peek_span()
    }

    fn advance(&mut self)
        requires
            old(self).wf(),
        ensures
            final(self).steps(*old(self)),
            final(self).errors == old(self).errors,
            final(self).pos == if old(self).pos < old(self).tokens.len() {
                old(self).pos + 1
            } else {
                old(self).pos as int
            },
    {
        if self.pos < self.tokens.len() {
            self.pos = self.pos + 1;
        }
    }

    fn at_eof(&self) -> (b: bool)
        requires
            self.wf(),
        ensures
            b == (self.peek_spec() is Eof),
    {
        self.peek().is_eof()
    }

    /// Whether the current token has the same variant as `tok`.
    fn check(&self, tok: &Token) -> (b: bool)
        requires
            self.wf(),
        ensures
            b == (self.peek_spec().kind_spec() == tok.kind_spec()),
    {
        self.peek().kind() == tok.kind()
    }

    fn eat(&mut self, tok: &Token) -> (b: bool)
        requires
            old(self).wf(),
            !(*tok is Eof),
        ensures
            final(self).steps(*old(self)),
            final(self).errors == old(self).errors,
            b == (old(self).peek_spec().kind_spec() == tok.kind_spec()),
            b ==> final(self).pos == old(self).pos + 1 && !(old(self).peek_spec() is Eof),
            !b ==> final(self).pos == old(self).pos,
    {
        if self.check(tok) {
            proof {
                lemma_kind_eof(self.peek_spec(), *tok);
            }
            self.advance();
            true
        } else {
            false
        }
    }

    fn error_here(&mut self, label: &'static str)
        requires
            old(self).wf(),
        ensures
            final(self).steps(*old(self)),
            final(self).pos == old(self).pos,
            final(self).errors@.len() == old(self).errors@.len() + 1,
            final(self).errors@.drop_last() == old(self).errors@,
    {
        let span = self.peek_span();
        let e = ParseError::expected(label, self.peek(), span);
        self.errors.push(e);
    }

    fn expect(&mut self, tok: &Token, label: &'static str) -> (b: bool)
        requires
            old(self).wf(),
            !(*tok is Eof),
        ensures
            final(self).steps(*old(self)),
            b == (old(self).peek_spec().kind_spec() == tok.kind_spec()),
            b ==> final(self).pos == old(self).pos + 1 && final(self).errors == old(self).errors,
            !b ==> final(self).pos == old(self).pos && final(self).errors@.len() == old(self).errors@.len() + 1,
    {
        if self.eat(tok) {
            true
        } else {
            self.error_here(label);
            false
        }
    }

    fn expect_ident(&mut self) -> (r: Option<String>)
        requires
            old(self).wf(),
        ensures
            final(self).steps(*old(self)),
            r is Some <==> old(self).peek_spec() is Ident,
            r is Some ==> final(self).pos == old(self).pos + 1,
            r matches Some(n) ==> old(self).peek_spec() == TokenOf::Ident(n) && final(self).errors == old(self).errors,
            r is None ==> final(self).pos == old(self).pos,
    {
        match self.peek() {
            TokenOf::Ident(name) => {
                let n = name.clone();
                self.advance();
                Some(n)
            },
            _ => {
                self.error_here("identifier");
                None
            },
        }
    }

    /// `export` replaces `pub` as the visibility keyword.
    fn eat_visibility(&mut self) -> (v: Visibility)
        requires
            old(self).wf(),
        ensures
            final(self).steps(*old(self)),
            final(self).errors == old(self).errors,
            final(self).pos <= old(self).pos + 1,
            old(self).peek_spec() is Export ==> v == Visibility::Public && final(self).pos == old(self).pos + 1,
            !(old(self).peek_spec() is Export) ==> v == Visibility::Private && final(self).pos == old(self).pos,
    {
        if self.eat(&TokenOf::Export) {
            Visibility::Public
        } else {
            Visibility::Private
        }
    }

    /// Whether the token after the current one is `fn`.
    fn next_is_fn(&self) -> (b: bool)
        ensures
            b == (self.pos + 1 < self.tokens@.len() && self.tokens@[self.pos + 1].node is Fn),
    {
        self.pos < self.tokens.len() && self.pos + 1 < self.tokens.len() && match &self.tokens[self.pos + 1].node {
            TokenOf::Fn => true,
            _ => false,
        }
    }
}

impl Parser {
    // ── Items ────────────────────────────────────────────────────────────────

    fn parse_item(&mut self) -> (r: Option<Item>)
        requires
            old(self).wf(),
        ensures
            final(self).steps(*old(self)),
            r is Some ==> final(self).pos > old(self).pos,
            !opens_item(old(self).peek_spec()) ==> r is None && final(self).pos == old(self).pos && final(self).errors@.len()
                == old(self).errors@.len() + 1,
            old(self).peek_spec() is Struct ==> (r is Some <==> old(self).token_at(old(self).pos + 1) is Ident) && (r matches Some(
                it,
            ) ==> it matches Item::StructDef(d) && d.vis == Visibility::Private && old(self).token_at(old(self).pos + 1)
                == TokenOf::Ident(d.name)),
        decreases old(self).rem(), 30nat,
    {
        // Collect any leading `#[attr]` annotations before the item keyword.
        let attrs = self.parse_attrs();
        let vis = self.eat_visibility();
        if self.check(&TokenOf::Async) && self.next_is_fn() {
            self.advance();
            return match self.parse_fn_def(vis, true, attrs) {
                Some(f) => Some(Item::FnDef(f)),
                None => None,
            };
        }
        let p0 = self.pos;
        let r = match self.peek() {
            TokenOf::Fn => match self.parse_fn_def(vis, false, attrs) {
                Some(f) => Some(Item::FnDef(f)),
                None => None,
            },
            TokenOf::Struct => match self.parse_struct_def(vis) {
                Some(s) => Some(Item::StructDef(s)),
                None => None,
            },
            TokenOf::Enum => match self.parse_enum_def(vis) {
                Some(e) => Some(Item::EnumDef(e)),
                None => None,
            },
            TokenOf::Trait => match self.parse_trait_def(vis) {
                Some(t) => Some(Item::TraitDef(t)),
                None => None,
            },
            TokenOf::Impl => match self.parse_impl_block() {
                Some(i) => Some(Item::ImplBlock(i)),
                None => None,
            },
            TokenOf::Type => match self.parse_type_alias(vis) {
                Some(a) => Some(Item::TypeAlias(a)),
                None => None,
            },
            TokenOf::Import => match self.parse_import_decl() {
                Some(d) => Some(Item::ImportDecl(d)),
                None => None,
            },
            TokenOf::Mod => match self.parse_mod_decl(vis) {
                Some(m) => Some(Item::ModDecl(m)),
                None => None,
            },
            TokenOf::Const => match self.parse_const_item(vis) {
                Some(c) => Some(Item::Const(c)),
                None => None,
            },
            _ => {
                self.error_here("item");
                None
            },
        };
        r
    }

    // ── Attributes: #[name] or #[name(arg1, arg2)] ───────────────────────────

    fn parse_attrs(&mut self) -> (attrs: Vec<Attr>)
        requires
            old(self).wf(),
        ensures
            final(self).steps(*old(self)),
            !(old(self).peek_spec() is Hash) ==> attrs@.len() == 0 && final(self).pos == old(self).pos
                && final(self).errors == old(self).errors,
            old(self).at_bare_attr() ==> attrs@.len() == 1 && old(self).bare_attr(attrs@[0]) && final(self).pos
                == old(self).pos + 4 && final(self).errors == old(self).errors,
    {
        let mut attrs: Vec<Attr> = Vec::new();
        while self.check(&TokenOf::Hash)
            invariant
                self.steps(*old(self)),
                !(old(self).peek_spec() is Hash) ==> attrs@.len() == 0 && self.pos == old(self).pos && self.errors
                    == old(self).errors,
                old(self).at_bare_attr() ==> (attrs@.len() == 0 && self.pos == old(self).pos && self.errors
                    == old(self).errors) || (attrs@.len() == 1 && old(self).bare_attr(attrs@[0]) && self.pos
                    == old(self).pos + 4 && self.errors == old(self).errors),
            ensures
                self.steps(*old(self)),
                !(old(self).peek_spec() is Hash) ==> attrs@.len() == 0 && self.pos == old(self).pos && self.errors
                    == old(self).errors,
                old(self).at_bare_attr() ==> attrs@.len() == 1 && old(self).bare_attr(attrs@[0]) && self.pos
                    == old(self).pos + 4 && self.errors == old(self).errors,
            decreases self.rem(),
        {
            let ghost p = self.pos;
            assert(old(self).peek_spec() is Hash);
            let span_start = self.peek_span();
            self.advance();  // consume `#`
            if !self.eat(&TokenOf::LBracket) {
                break;
            }
            let name = match self.expect_ident() {
                Some(n) => n,
                None => {
                    while !matches!(self.peek(), TokenOf::RBracket | TokenOf::Eof)
                        invariant
                            self.steps(*old(self)),
                            self.pos > p,
                            old(self).peek_spec() is Hash,
                        decreases self.rem(),
                    {
                        self.advance();
                    }
                    self.eat(&TokenOf::RBracket);
                    continue ;
                },
            };
            // Optional `(arg, …)`
            let mut args: Vec<String> = Vec::new();
            if self.eat(&TokenOf::LParen) {
                while !matches!(self.peek(), TokenOf::RParen | TokenOf::Eof)
                    invariant
                        self.steps(*old(self)),
                        self.pos > p,
                        old(self).peek_spec() is Hash,
                    decreases self.rem(),
                {
                    let ghost q = self.pos;
                    // Collect tokens as a raw string until `)` or `,`
                    let mut raw = String::new();
                    while !matches!(
                        self.peek(),
                        TokenOf::RParen | TokenOf::Comma | TokenOf::Eof
                    )
                        invariant
                            self.steps(*old(self)),
                            self.pos >= q,
                            q > p,
                            old(self).peek_spec() is Hash,
                        decreases self.rem(),
                    {
                        let d = self.peek().debug_string();
                        push_str(&mut raw, d.as_str());
                        self.advance();
                    }
                    args.push(raw);
                    if !self.eat(&TokenOf::Comma) {
                        break;
                    }
                }
                self.expect(&TokenOf::RParen, "`)`");
            }
            let span = span_start.merge(self.current_span());
            self.expect(&TokenOf::RBracket, "`]`");
            attrs.push(Attr { name, args, span });
        }
        attrs
    }

    // ── fn ───────────────────────────────────────────────────────────────────

    fn parse_fn_def(&mut self, vis: Visibility, is_async: bool, attrs: Vec<Attr>) -> (r: Option<FnDef>)
        requires
            old(self).wf(),
        ensures
            final(self).steps(*old(self)),
            r is Some ==> final(self).pos > old(self).pos,
            (old(self).peek_spec() is Fn) ==> final(self).pos > old(self).pos,
        decreases old(self).rem(), 20nat,
    {
        let start = self.peek_span();
        self.expect(&TokenOf::Fn, "`fn`");
        let name = self.expect_ident()?;
        let generics = self.parse_generic_params();
        let params = self.parse_fn_params();
        // Return type: `: Type`  (TypeScript style)
        let return_ty = if self.eat(&TokenOf::Colon) {
            self.parse_type()
        } else {
            None
        };
        let body = self.parse_block()?;
        let span = start.merge(body.span);
        Some(FnDef { vis, name, generics, params, return_ty, body, is_async, attrs, span })
    }

    fn parse_fn_params(&mut self) -> (params: Vec<Param>)
        requires
            old(self).wf(),
        ensures
            final(self).steps(*old(self)),
            old(self).peek_spec() is LParen && old(self).token_at(old(self).pos + 1) is RParen ==> params@.len() == 0
                && final(self).pos == old(self).pos + 2 && final(self).errors == old(self).errors,
    {
        let mut params: Vec<Param> = Vec::new();
        self.expect(&TokenOf::LParen, "`(`");
        while !matches!(self.peek(), TokenOf::RParen | TokenOf::Eof)
            invariant
                self.steps(*old(self)),
                old(self).peek_spec() is LParen && old(self).token_at(old(self).pos + 1) is RParen ==> params@.len() == 0
                    && self.pos == old(self).pos + 1 && self.errors == old(self).errors,
            decreases self.rem(),
        {
            let start = self.peek_span();
            let name = match self.expect_ident() {
                Some(n) => n,
                None => break,
            };
            self.expect(&TokenOf::Colon, "`:`");
            let ty = match self.parse_type() {
                Some(t) => t,
                None => break,
            };
            let span = start.merge(ty.span());
            params.push(Param { name, ty, span });
            if !self.eat(&TokenOf::Comma) {
                break;
            }
        }
        self.expect(&TokenOf::RParen, "`)`");
        params
    }

    fn parse_generic_params(&mut self) -> (params: Vec<GenericParam>)
        requires
            old(self).wf(),
        ensures
            final(self).steps(*old(self)),
            !(old(self).peek_spec() is Lt) ==> params@.len() == 0 && final(self).pos == old(self).pos
                && final(self).errors == old(self).errors,
            old(self).peek_spec() is Lt ==> final(self).pos > old(self).pos,
            old(self).peek_spec() is Lt && old(self).token_at(old(self).pos + 1) is Ident && old(self).token_at(old(self).pos + 2) is Gt ==> params@.len() == 1 && old(self).token_at(old(self).pos + 1) == TokenOf::Ident(params@[0].name) && params@[0].bounds@.len() == 0 && params@[0].span == old(self).span_at(old(self).pos + 1).merged(old(self).span_at(old(self).pos + 2))
                && final(self).pos == old(self).pos + 3 && final(self).errors == old(self).errors,
    {
        if !self.eat(&TokenOf::Lt) {
            return Vec::new();
        }
        let mut params: Vec<GenericParam> = Vec::new();
        while !matches!(self.peek(), TokenOf::Gt | TokenOf::Eof)
            invariant
                self.steps(*old(self)),
                self.pos > old(self).pos,
                old(self).peek_spec() is Lt && old(self).token_at(old(self).pos + 1) is Ident && old(self).token_at(old(self).pos + 2) is Gt ==> (params@.len() == 0 && self.pos == old(self).pos + 1 && self.errors == old(self).errors) || (params@.len() == 1 && old(self).token_at(old(self).pos + 1) == TokenOf::Ident(params@[0].name) && params@[0].bounds@.len() == 0 && params@[0].span == old(self).span_at(old(self).pos + 1).merged(old(self).span_at(old(self).pos + 2))
                    && self.pos == old(self).pos + 2 && self.errors == old(self).errors),
            ensures
                self.steps(*old(self)),
                self.pos > old(self).pos,
                old(self).peek_spec() is Lt && old(self).token_at(old(self).pos + 1) is Ident && old(self).token_at(old(self).pos + 2) is Gt ==> params@.len() == 1 && old(self).token_at(old(self).pos + 1) == TokenOf::Ident(params@[0].name) && params@[0].bounds@.len() == 0 && params@[0].span == old(self).span_at(old(self).pos + 1).merged(old(self).span_at(old(self).pos + 2))
                    && self.pos == old(self).pos + 2 && self.errors == old(self).errors,
            decreases self.rem(),
        {
            let ghost p = self.pos;
            let start = self.peek_span();
            let name = match self.expect_ident() {
                Some(n) => n,
                None => break,
            };
            let bounds = if self.eat(&TokenOf::Colon) {
                let mut bs: Vec<Type> = Vec::new();
                if let Some(t) = self.parse_type() {
                    bs.push(t);
                }
                while self.eat(&TokenOf::Amp)
                    invariant
                        self.steps(*old(self)),
                        self.pos > p,
                    decreases self.rem(),
                {
                    if let Some(t) = self.parse_type() {
                        bs.push(t);
                    }
                }
                bs
            } else {
                Vec::new()
            };
            let span = start.merge(self.current_span());
            params.push(GenericParam { name, bounds, span });
            if !self.eat(&TokenOf::Comma) {
                break;
            }
        }
        self.expect(&TokenOf::Gt, "`>`");
        params
    }

    // ── struct / enum ────────────────────────────────────────────────────────

    /// `name: Type` fields, each optionally `export`ed and `;`-terminated.
    fn parse_fields(&mut self) -> (fields: Vec<StructField>)
        requires
            old(self).wf(),
        ensures
            final(self).steps(*old(self)),
            (old(self).peek_spec() is RBrace || old(self).peek_spec() is Eof) ==> fields@.len() == 0 && final(self).pos
                == old(self).pos && final(self).errors == old(self).errors,
    {
        let mut fields: Vec<StructField> = Vec::new();
        while !matches!(self.peek(), TokenOf::RBrace | TokenOf::Eof)
            invariant
                self.steps(*old(self)),
                (old(self).peek_spec() is RBrace || old(self).peek_spec() is Eof) ==> fields@.len() == 0 && self.pos
                    == old(self).pos && self.errors == old(self).errors,
            decreases self.rem(),
        {
            let fstart = self.peek_span();
            let fvis = self.eat_visibility();
            let fname = match self.expect_ident() {
                Some(n) => n,
                None => break,
            };
            self.expect(&TokenOf::Colon, "`:`");
            let fty = match self.parse_type() {
                Some(t) => t,
                None => break,
            };
            // Struct fields are semicolon-terminated (TypeScript-like)
            self.eat(&TokenOf::Semi);
            let fspan = fstart.merge(fty.span());
            fields.push(StructField { vis: fvis, name: fname, ty: fty, span: fspan });
        }
        fields
    }

    fn parse_struct_def(&mut self, vis: Visibility) -> (r: Option<StructDef>)
        requires
            old(self).wf(),
        ensures
            final(self).steps(*old(self)),
            r is Some ==> final(self).pos > old(self).pos,
            r is Some <==> old(self).token_at(old(self).name_pos(TokenOf::Struct)) is Ident,
            r matches Some(d) ==> d.vis == vis && old(self).token_at(old(self).name_pos(TokenOf::Struct)) == TokenOf::Ident(
                d.name,
            ),
            old(self).peek_spec() is Struct && old(self).token_at(old(self).pos + 1) is Ident && old(self).token_at(
                old(self).pos + 2,
            ) is LBrace && old(self).token_at(old(self).pos + 3) is RBrace ==> (r matches Some(d) && d.generics@.len()
                == 0 && d.fields@.len() == 0 && d.span == old(self).span_at(old(self).pos as int).merged(
                old(self).span_at(old(self).pos + 4),
            )) && final(self).pos == old(self).pos + 4 && final(self).errors == old(self).errors,
    {
        let start = self.peek_span();
        self.expect(&TokenOf::Struct, "`struct`");
        let name = self.expect_ident()?;
        let generics = self.parse_generic_params();
        self.expect(&TokenOf::LBrace, "`{`");
        let fields = self.parse_fields();
        self.expect(&TokenOf::RBrace, "`}`");
        let span = start.merge(self.current_span());
        Some(StructDef { vis, name, generics, fields, span })
    }

    fn parse_enum_def(&mut self, vis: Visibility) -> (r: Option<EnumDef>)
        requires
            old(self).wf(),
            !(old(self).peek_spec() is Eof),
        ensures
            final(self).steps(*old(self)),
            final(self).pos > old(self).pos,
    {
        let start = self.peek_span();
        self.advance();  // `enum`
        let name = self.expect_ident()?;
        let generics = self.parse_generic_params();
        self.expect(&TokenOf::LBrace, "`{`");
        let mut variants: Vec<EnumVariant> = Vec::new();
        while !matches!(self.peek(), TokenOf::RBrace | TokenOf::Eof)
            invariant
                self.steps(*old(self)),
                self.pos > old(self).pos,
            decreases self.rem(),
        {
            let ghost p = self.pos;
            let vstart = self.peek_span();
            let vname = match self.expect_ident() {
                Some(n) => n,
                None => break,
            };
            let kind = if self.eat(&TokenOf::LParen) {
                let mut tys: Vec<Type> = Vec::new();
                while !matches!(self.peek(), TokenOf::RParen | TokenOf::Eof)
                    invariant
                        self.steps(*old(self)),
                        self.pos > old(self).pos,
                        self.pos > p,
                    decreases self.rem(),
                {
                    if let Some(t) = self.parse_type() {
                        tys.push(t);
                    }
                    if !self.eat(&TokenOf::Comma) {
                        break;
                    }
                }
                self.expect(&TokenOf::RParen, "`)`");
                VariantKind::Tuple(tys)
            } else if self.check(&TokenOf::LBrace) {
                self.advance();
                let fs = self.parse_fields();
                self.expect(&TokenOf::RBrace, "`}`");
                VariantKind::Struct(fs)
            } else {
                VariantKind::Unit
            };
            let vspan = vstart.merge(self.current_span());
            variants.push(EnumVariant { name: vname, kind, span: vspan });
            if !self.eat(&TokenOf::Comma) {
                break;
            }
        }
        self.expect(&TokenOf::RBrace, "`}`");
        let span = start.merge(self.current_span());
        Some(EnumDef { vis, name, generics, variants, span })
    }

    // ── trait / impl ─────────────────────────────────────────────────────────

    fn parse_trait_def(&mut self, vis: Visibility) -> (r: Option<TraitDef>)
        requires
            old(self).wf(),
            !(old(self).peek_spec() is Eof),
        ensures
            final(self).steps(*old(self)),
            final(self).pos > old(self).pos,
        decreases old(self).rem(), 20nat,
    {
        let start = self.peek_span();
        self.advance();
        let name = self.expect_ident()?;
        let generics = self.parse_generic_params();
        self.expect(&TokenOf::LBrace, "`{`");
        let mut items: Vec<TraitItem> = Vec::new();
        while !matches!(self.peek(), TokenOf::RBrace | TokenOf::Eof)
            invariant
                self.steps(*old(self)),
                self.pos > old(self).pos,
            decreases self.rem(),
        {
            let is_async = self.check(&TokenOf::Async) && self.next_is_fn();
            if is_async {
                self.advance();
            }
            if self.check(&TokenOf::Fn) {
                let fvis = Visibility::Public;
                let inner_attrs = self.parse_attrs();
                if let Some(f) = self.parse_fn_def(fvis, is_async, inner_attrs) {
                    items.push(TraitItem::FnDef(f));
                }
            } else {
                self.advance();
            }
        }
        self.expect(&TokenOf::RBrace, "`}`");
        let span = start.merge(self.current_span());
        Some(TraitDef { vis, name, generics, items, span })
    }

    fn parse_impl_block(&mut self) -> (r: Option<ImplBlock>)
        requires
            old(self).wf(),
            !(old(self).peek_spec() is Eof),
        ensures
            final(self).steps(*old(self)),
            final(self).pos > old(self).pos,
        decreases old(self).rem(), 20nat,
    {
        let start = self.peek_span();
        self.advance();  // `impl`
        let generics = self.parse_generic_params();
        let self_ty = self.parse_type()?;
        self.expect(&TokenOf::LBrace, "`{`");
        let mut items: Vec<ImplItem> = Vec::new();
        while !matches!(self.peek(), TokenOf::RBrace | TokenOf::Eof)
            invariant
                self.steps(*old(self)),
                self.pos > old(self).pos,
            decreases self.rem(),
        {
            let p0 = self.pos;
            let vis = self.eat_visibility();
            let is_async = self.check(&TokenOf::Async) && self.next_is_fn();
            if is_async {
                self.advance();
            }
            let impl_attrs = self.parse_attrs();
            if let Some(f) = self.parse_fn_def(vis, is_async, impl_attrs) {
                items.push(ImplItem::Fn(f));
            } else {
                self.advance();
            }
        }
        self.expect(&TokenOf::RBrace, "`}`");
        let span = start.merge(self.current_span());
        Some(ImplBlock { generics, trait_: None, self_ty, items, span })
    }

    // ── type alias / import / mod / const ────────────────────────────────────

    fn parse_type_alias(&mut self, vis: Visibility) -> (r: Option<TypeAlias>)
        requires
            old(self).wf(),
            !(old(self).peek_spec() is Eof),
        ensures
            final(self).steps(*old(self)),
            final(self).pos > old(self).pos,
    {
        let start = self.peek_span();
        self.advance();
        let name = self.expect_ident()?;
        let generics = self.parse_generic_params();
        self.expect(&TokenOf::Eq, "`=`");
        let ty = self.parse_type()?;
        self.expect(&TokenOf::Semi, "`;`");
        let span = start.merge(self.current_span());
        Some(TypeAlias { vis, name, generics, ty, span })
    }

    fn parse_import_decl(&mut self) -> (r: Option<ImportDecl>)
        requires
            old(self).wf(),
            !(old(self).peek_spec() is Eof),
        ensures
            final(self).steps(*old(self)),
            final(self).pos > old(self).pos,
    {
        let start = self.peek_span();
        self.advance();  // `import`
        let items = if self.eat(&TokenOf::Star) {
            ImportItems::Glob
        } else {
            self.expect(&TokenOf::LBrace, "`{`");
            let mut names: Vec<ImportedName> = Vec::new();
            while !matches!(self.peek(), TokenOf::RBrace | TokenOf::Eof)
                invariant
                    self.steps(*old(self)),
                    self.pos > old(self).pos,
                decreases self.rem(),
            {
                let nstart = self.peek_span();
                let name = match self.expect_ident() {
                    Some(n) => n,
                    None => break,
                };
                let alias = if self.eat(&TokenOf::As) {
                    self.expect_ident()
                } else {
                    None
                };
                let nspan = nstart.merge(self.current_span());
                names.push(ImportedName { name, alias, span: nspan });
                if !self.eat(&TokenOf::Comma) {
                    break;
                }
            }
            self.expect(&TokenOf::RBrace, "`}`");
            ImportItems::Named(names)
        };
        // `from "module-path"`
        let source = if self.check(&TokenOf::Ident(String::new())) {
            self.advance();  // `from`
            match self.peek() {
                TokenOf::StrLit(s) => {
                    let s = s.clone();
                    self.advance();
                    s
                },
                _ => {
                    self.error_here("module path string");
                    String::new()
                },
            }
        } else {
            String::new()
        };
        self.expect(&TokenOf::Semi, "`;`");
        let span = start.merge(self.current_span());
        Some(ImportDecl { items, source, span })
    }

    fn parse_mod_decl(&mut self, vis: Visibility) -> (r: Option<ModDecl>)
        requires
            old(self).wf(),
            !(old(self).peek_spec() is Eof),
        ensures
            final(self).steps(*old(self)),
            final(self).pos > old(self).pos,
        decreases old(self).rem(), 20nat,
    {
        let start = self.peek_span();
        self.advance();
        let name = self.expect_ident()?;
        let body = if self.check(&TokenOf::LBrace) {
            self.advance();
            let mut items: Vec<Item> = Vec::new();
            while !matches!(self.peek(), TokenOf::RBrace | TokenOf::Eof)
                invariant
                    self.steps(*old(self)),
                    self.pos > old(self).pos,
                decreases self.rem(),
            {
                if let Some(item) = self.parse_item() {
                    items.push(item);
                } else {
                    self.advance();
                }
            }
            self.expect(&TokenOf::RBrace, "`}`");
            let span = start.merge(self.current_span());
            Some(Module { items, span })
        } else {
            self.expect(&TokenOf::Semi, "`;`");
            None
        };
        let span = start.merge(self.current_span());
        Some(ModDecl { vis, name, body, span })
    }

    fn parse_const_item(&mut self, vis: Visibility) -> (r: Option<ConstItem>)
        requires
            old(self).wf(),
            !(old(self).peek_spec() is Eof),
        ensures
            final(self).steps(*old(self)),
            final(self).pos > old(self).pos,
        decreases old(self).rem(), 20nat,
    {
        let start = self.peek_span();
        self.advance();  // `const`
        let name = self.expect_ident()?;
        let ty = if self.eat(&TokenOf::Colon) {
            self.parse_type()
        } else {
            None
        };
        self.expect(&TokenOf::Eq, "`=`");
        let value = self.parse_expr()?;
        self.expect(&TokenOf::Semi, "`;`");
        let span = start.merge(self.current_span());
        Some(ConstItem { vis, name, ty, value, span })
    }

    // ── Types ────────────────────────────────────────────────────────────────

    fn parse_type(&mut self) -> (r: Option<Type>)
        requires
            old(self).wf(),
        ensures
            final(self).steps(*old(self)),
            r is Some ==> final(self).pos > old(self).pos,
            r is Some <==> opens_type(old(self).peek_spec()),
            old(self).at_lone_type() && !(old(self).token_at(old(self).pos + 1) is LBracket) ==> (r matches Some(t)
                && old(self).lone_type(t)) && final(self).pos == old(self).pos + 1 && final(self).errors == old(self).errors,
            r is None ==> final(self).pos == old(self).pos && final(self).errors@.len() == old(self).errors@.len() + 1,
        decreases old(self).rem(), 2nat,
    {
        let start = self.peek_span();
        let base = self.parse_base_type()?;
        // Postfix `[]` — `i32[]`, `string[]`, etc.
        if self.eat(&TokenOf::LBracket) {
            self.expect(&TokenOf::RBracket, "`]`");
            let span = start.merge(self.current_span());
            return Some(Type::Array { elem: Box::new(base), len: None, span });
        }
        Some(base)
    }

    fn named_type(&mut self, name: &str, start: Span) -> (r: Option<Type>)
        requires
            old(self).wf(),
            !(old(self).peek_spec() is Eof),
        ensures
            final(self).steps(*old(self)),
            final(self).pos == old(self).pos + 1,
            final(self).errors == old(self).errors,
            r matches Some(Type::Named { name: n, args, span }) && n@ == name@ && args@.len() == 0 && span == start,
    {
        self.advance();
        Some(Type::Named { name: string_of(name), args: Vec::new(), span: start })
    }

    fn parse_base_type(&mut self) -> (r: Option<Type>)
        requires
            old(self).wf(),
        ensures
            final(self).steps(*old(self)),
            r is Some ==> final(self).pos > old(self).pos,
            r is Some <==> opens_type(old(self).peek_spec()),
            old(self).at_lone_type() ==> (r matches Some(t) && old(self).lone_type(t)) && final(self).pos == old(self).pos + 1
                && final(self).errors == old(self).errors,
            r is None ==> final(self).pos == old(self).pos && final(self).errors@.len() == old(self).errors@.len() + 1,
        decreases old(self).rem(), 1nat,
    {
        let start = self.peek_span();
        match self.peek() {
            TokenOf::KwI32 => self.named_type("i32", start),
            TokenOf::KwI64 => self.named_type("i64", start),
            TokenOf::KwF32 => self.named_type("f32", start),
            TokenOf::KwF64 => self.named_type("f64", start),
            TokenOf::KwBoolean => self.named_type("boolean", start),
            TokenOf::KwString => self.named_type("string", start),
            TokenOf::KwChar => self.named_type("char", start),
            TokenOf::KwVoid => {
                self.advance();
                Some(Type::Void(start))
            },
            TokenOf::KwNumber => self.named_type("f64", start),
            TokenOf::Ident(name) => {
                let name = name.clone();
                self.advance();
                let args = if self.eat(&TokenOf::Lt) {
                    let mut args: Vec<Type> = Vec::new();
                    while !matches!(self.peek(), TokenOf::Gt | TokenOf::Eof)
                        invariant
                            self.steps(*old(self)),
                            self.pos > old(self).pos,
                        decreases self.rem(),
                    {
                        if let Some(t) = self.parse_type() {
                            args.push(t);
                        }
                        if !self.eat(&TokenOf::Comma) {
                            break;
                        }
                    }
                    self.expect(&TokenOf::Gt, "`>`");
                    args
                } else {
                    Vec::new()
                };
                let span = start.merge(self.current_span());
                Some(Type::Named { name, args, span })
            },
            TokenOf::LParen => {
                // `(T, U)` tuple  OR  `(T) => R` function type
                self.advance();
                let elems = self.type_list(&TokenOf::RParen);
                self.expect(&TokenOf::RParen, "`)`");
                if self.eat(&TokenOf::FatArrow) {
                    let ret = match self.parse_type() {
                        Some(t) => t,
                        None => Type::Void(start),
                    };
                    let span = start.merge(ret.span());
                    Some(Type::Fn { params: elems, ret: Box::new(ret), span })
                } else {
                    let span = start.merge(self.current_span());
                    Some(Type::Tuple { elems, span })
                }
            },
            TokenOf::LBracket => {
                // `[T, U]` fixed-element tuple array
                self.advance();
                let elems = self.type_list(&TokenOf::RBracket);
                self.expect(&TokenOf::RBracket, "`]`");
                let span = start.merge(self.current_span());
                Some(Type::Tuple { elems, span })
            },
            _ => {
                let e = ParseError::expected("type", self.peek(), start);
                self.errors.push(e);
                None
            },
        }
    }

    /// Comma-separated types up to `close` (not consumed).
    fn type_list(&mut self, close: &Token) -> (elems: Vec<Type>)
        requires
            old(self).wf(),
            old(self).pos > 0,
        ensures
            final(self).steps(*old(self)),
            (old(self).peek_spec().kind_spec() == close.kind_spec() || old(self).peek_spec() is Eof) ==> elems@.len() == 0
                && final(self).pos == old(self).pos && final(self).errors == old(self).errors,
            old(self).at_lone_type() && old(self).token_at(old(self).pos + 1).kind_spec() == close.kind_spec() && old(self).peek_spec().kind_spec() != close.kind_spec() && !(*close is Comma) && !(*close is LBracket) ==> elems@.len() == 1 && old(self).lone_type(elems@[0]) && final(self).pos == old(self).pos + 1
                && final(self).errors == old(self).errors,
        decreases old(self).rem(), 3nat,
    {
        let mut elems: Vec<Type> = Vec::new();
        while !self.check(close) && !self.at_eof()
            invariant
                self.steps(*old(self)),
                (old(self).peek_spec().kind_spec() == close.kind_spec() || old(self).peek_spec() is Eof) ==> elems@.len() == 0
                    && self.pos == old(self).pos && self.errors == old(self).errors,
                old(self).at_lone_type() && old(self).token_at(old(self).pos + 1).kind_spec() == close.kind_spec() && old(self).peek_spec().kind_spec() != close.kind_spec() && !(*close is Comma) && !(*close is LBracket) ==> (elems@.len() == 0 && self.pos == old(self).pos && self.errors == old(self).errors) || (elems@.len() == 1 && old(self).lone_type(elems@[0])
                    && self.pos == old(self).pos + 1 && self.errors == old(self).errors),
            ensures
                self.steps(*old(self)),
                (old(self).peek_spec().kind_spec() == close.kind_spec() || old(self).peek_spec() is Eof) ==> elems@.len() == 0
                    && self.pos == old(self).pos && self.errors == old(self).errors,
                old(self).at_lone_type() && old(self).token_at(old(self).pos + 1).kind_spec() == close.kind_spec() && old(self).peek_spec().kind_spec() != close.kind_spec() && !(*close is Comma) && !(*close is LBracket) ==> elems@.len() == 1 && old(self).lone_type(elems@[0]) && self.pos == old(self).pos + 1 && self.errors == old(self).errors,
            decreases self.rem(),
        {
            if let Some(t) = self.parse_type() {
                elems.push(t);
            }
            if !self.eat(&TokenOf::Comma) {
                break;
            }
        }
        elems
    }
}

impl Parser {
    // ── Blocks & statements ──────────────────────────────────────────────────

    spec fn block_level(self) -> nat {
        if self.peek_spec() is LBrace {
            0
        } else {
            50
        }
    }

    fn parse_block(&mut self) -> (r: Option<Block>)
        requires
            old(self).wf(),
        ensures
            final(self).steps(*old(self)),
            r is Some,
            (old(self).peek_spec() is LBrace) ==> final(self).pos > old(self).pos,
        decreases old(self).rem(), old(self).block_level(),
    {
        let start = self.peek_span();
        self.expect(&TokenOf::LBrace, "`{`");
        let mut stmts: Vec<Stmt> = Vec::new();
        let mut tail: Option<Box<Expr>> = None;
        while !matches!(self.peek(), TokenOf::RBrace | TokenOf::Eof)
            invariant
                self.steps(*old(self)),
                (old(self).peek_spec() is LBrace) ==> self.pos > old(self).pos,
            decreases self.rem(),
        {
            let p0 = self.pos;
            let tail_before = tail.is_some();
            match self.parse_stmt(&mut tail) {
                Some(stmt) => {
                    stmts.push(stmt);
                },
                None => {
                    if !tail.is_some() || tail_before {
                        // Genuine parse failure (tail was not freshly set) — advance to recover.
                        self.advance();
                    }
                    // If tail was just set, don't advance — the `}` will end the loop.
                },
            }
        }
        self.expect(&TokenOf::RBrace, "`}`");
        let span = start.merge(self.current_span());
        Some(Block { stmts, tail, span })
    }

    fn parse_stmt(&mut self, tail: &mut Option<Box<Expr>>) -> (r: Option<Stmt>)
        requires
            old(self).wf(),
        ensures
            final(self).steps(*old(self)),
            r is Some ==> final(self).pos > old(self).pos,
            (old(tail).is_none() && final(tail).is_some()) ==> final(self).pos > old(self).pos,
            *final(tail) != *old(tail) ==> r is None && final(tail).is_some(),
            old(self).at_lone_literal() && old(self).token_at(old(self).pos + 1) is Semi ==> (r matches Some(
                Stmt::Expr(e, sp),
            ) && e == old(self).lone_literal() && sp == e.span) && *final(tail) == *old(tail) && final(self).pos
                == old(self).pos + 2 && final(self).errors == old(self).errors,
            old(self).at_lone_literal() && !(old(self).token_at(old(self).pos + 1) is Semi) ==> r is None && (
            *final(tail) matches Some(b) && *b == old(self).lone_literal()) && final(self).pos == old(self).pos + 1
                && final(self).errors == old(self).errors,
        decreases old(self).rem(), 40nat,
    {
        match self.peek() {
            TokenOf::Let => {
                let start = self.peek_span();
                self.advance();
                let pattern = self.parse_pattern()?;
                let ty = if self.eat(&TokenOf::Colon) {
                    self.parse_type()
                } else {
                    None
                };
                let init = if self.eat(&TokenOf::Eq) {
                    self.parse_expr()
                } else {
                    None
                };
                self.expect(&TokenOf::Semi, "`;`");
                let span = start.merge(self.current_span());
                Some(Stmt::Let(LetStmt { pattern, ty, init, span }))
            },
            TokenOf::Const => {
                // `const x: T = expr;` inside a block → ConstItem
                let start = self.peek_span();
                self.advance();
                let name = self.expect_ident()?;
                let ty = if self.eat(&TokenOf::Colon) {
                    self.parse_type()
                } else {
                    None
                };
                self.expect(&TokenOf::Eq, "`=`");
                let value = self.parse_expr()?;
                self.expect(&TokenOf::Semi, "`;`");
                let span = start.merge(self.current_span());
                Some(
                    Stmt::Item(
                        Item::Const(ConstItem { vis: Visibility::Private, name, ty, value, span }),
                    ),
                )
            },
            TokenOf::Fn | TokenOf::Struct | TokenOf::Enum | TokenOf::Import => {
                match self.parse_item() {
                    Some(item) => Some(Stmt::Item(item)),
                    None => None,
                }
            },
            _ => {
                let expr = self.parse_expr()?;
                // Block-ending expressions (while/for/if/loop) are always
                // treated as void statements; they never need a trailing `;`.
                let is_block_expr = match &expr.kind {
                    ExprKind::While { .. } | ExprKind::For { .. } | ExprKind::Loop(_)
                    | ExprKind::If { .. } => true,
                    _ => false,
                };
                let has_semi = self.eat(&TokenOf::Semi);  // optional `;`
                if is_block_expr || has_semi {
                    let span = expr.span;
                    Some(Stmt::Expr(expr, span))
                } else {
                    // No `;` and not a block expression — this is the tail.
                    *tail = Some(Box::new(expr));
                    None
                }
            },
        }
    }

    // ── Patterns ─────────────────────────────────────────────────────────────

    fn parse_pattern(&mut self) -> (r: Option<Pattern>)
        requires
            old(self).wf(),
        ensures
            final(self).steps(*old(self)),
            r is Some ==> final(self).pos > old(self).pos,
            token_pattern(old(self).peek_spec()) matches Some(k) ==> r == Some(
                Pattern { kind: k, span: old(self).span_at(old(self).pos as int).merged(old(self).span_at(old(self).pos + 1)) },
            ) && final(self).pos == old(self).pos + 1 && final(self).errors == old(self).errors,
            (old(self).peek_spec() is LBracket || old(self).peek_spec() is LParen) ==> (r matches Some(p) && p.kind is Tuple),
            !opens_pattern(old(self).peek_spec()) ==> r is None && final(self).pos == old(self).pos
                && final(self).errors@.len() == old(self).errors@.len() + 1,
        decreases old(self).rem(), 1nat,
    {
        let start = self.peek_span();
        let kind = match self.peek() {
            TokenOf::Ident(name) => {
                let is_wild = is_underscore(name);
                let name = name.clone();
                self.advance();
                if is_wild {
                    PatternKind::Wildcard
                } else {
                    PatternKind::Ident { name, mutable: false }
                }
            },
            TokenOf::IntLit(v) => {
                let v = *v;
                self.advance();
                PatternKind::Literal(LitPat::Int(v))
            },
            TokenOf::BoolLit(v) => {
                let v = *v;
                self.advance();
                PatternKind::Literal(LitPat::Bool(v))
            },
            TokenOf::StrLit(v) => {
                let v = v.clone();
                self.advance();
                PatternKind::Literal(LitPat::Str(v))
            },
            TokenOf::LBracket => {
                // `[a, b]` — tuple pattern (TypeScript destructuring style)
                self.advance();
                let elems = self.pattern_list(&TokenOf::RBracket);
                self.expect(&TokenOf::RBracket, "`]`");
                PatternKind::Tuple(elems)
            },
            TokenOf::LParen => {
                self.advance();
                let elems = self.pattern_list(&TokenOf::RParen);
                self.expect(&TokenOf::RParen, "`)`");
                PatternKind::Tuple(elems)
            },
            _ => {
                self.error_here("pattern");
                return None;
            },
        };
        let span = start.merge(self.current_span());
        Some(Pattern { kind, span })
    }

    /// Comma-separated patterns up to `close` (not consumed).
    fn pattern_list(&mut self, close: &Token) -> (elems: Vec<Pattern>)
        requires
            old(self).wf(),
        ensures
            final(self).steps(*old(self)),
            (old(self).peek_spec().kind_spec() == close.kind_spec() || old(self).peek_spec() is Eof) ==> elems@.len() == 0
                && final(self).pos == old(self).pos && final(self).errors == old(self).errors,
            token_pattern(old(self).peek_spec()) is Some && old(self).token_at(old(self).pos + 1).kind_spec() == close.kind_spec() && old(self).peek_spec().kind_spec() != close.kind_spec() && !(*close is Comma) ==> elems@ == seq![Pattern { kind: token_pattern(old(self).peek_spec())->Some_0, span: old(self).span_at(old(self).pos as int).merged(old(self).span_at(old(self).pos + 1)) }] && final(self).pos == old(self).pos + 1
                && final(self).errors == old(self).errors,
        decreases old(self).rem(), 2nat,
    {
        let mut elems: Vec<Pattern> = Vec::new();
        while !self.check(close) && !self.at_eof()
            invariant
                self.steps(*old(self)),
                (old(self).peek_spec().kind_spec() == close.kind_spec() || old(self).peek_spec() is Eof) ==> elems@.len() == 0
                    && self.pos == old(self).pos && self.errors == old(self).errors,
                token_pattern(old(self).peek_spec()) is Some && old(self).token_at(old(self).pos + 1).kind_spec() == close.kind_spec() && old(self).peek_spec().kind_spec() != close.kind_spec() && !(*close is Comma) ==> (elems@.len() == 0 && self.pos == old(self).pos && self.errors == old(self).errors) || (elems@ == seq![Pattern { kind: token_pattern(old(self).peek_spec())->Some_0, span: old(self).span_at(old(self).pos as int).merged(old(self).span_at(old(self).pos + 1)) }]
                    && self.pos == old(self).pos + 1 && self.errors == old(self).errors),
            ensures
                self.steps(*old(self)),
                (old(self).peek_spec().kind_spec() == close.kind_spec() || old(self).peek_spec() is Eof) ==> elems@.len() == 0
                    && self.pos == old(self).pos && self.errors == old(self).errors,
                token_pattern(old(self).peek_spec()) is Some && old(self).token_at(old(self).pos + 1).kind_spec() == close.kind_spec() && old(self).peek_spec().kind_spec() != close.kind_spec() && !(*close is Comma) ==> elems@ == seq![Pattern { kind: token_pattern(old(self).peek_spec())->Some_0, span: old(self).span_at(old(self).pos as int).merged(old(self).span_at(old(self).pos + 1)) }] && self.pos == old(self).pos + 1 && self.errors == old(self).errors,
            decreases self.rem(),
        {
            if let Some(p) = self.parse_pattern() {
                elems.push(p);
            }
            if !self.eat(&TokenOf::Comma) {
                break;
            }
        }
        elems
    }
}

fn is_underscore(name: &String) -> (b: bool)
    ensures
        b == (name@ == seq!['_']),
{
    let v = crate::text::chars_of(name.as_str());
    let b = v.len() == 1 && v[0] == '_';
    proof {
        if b {
            assert(v@ =~= seq!['_']);
        }
    }
    b
}

impl Parser {
    // ── Expressions ──────────────────────────────────────────────────────────

    fn parse_expr(&mut self) -> (r: Option<Expr>)
        requires
            old(self).wf(),
        ensures
            final(self).steps(*old(self)),
            r is Some ==> final(self).pos > old(self).pos,
            final(self).gives_lone_literal(*old(self), r),
            final(self).gives_closed_pair(*old(self), r, 6),
        decreases old(self).rem(), 38nat,
    {
        self.parse_assign()
    }

    fn parse_assign(&mut self) -> (r: Option<Expr>)
        requires
            old(self).wf(),
        ensures
            final(self).steps(*old(self)),
            r is Some ==> final(self).pos > old(self).pos,
            final(self).gives_lone_literal(*old(self), r),
            final(self).gives_closed_pair(*old(self), r, 6),
        decreases old(self).rem(), 37nat,
    {
        let lhs = self.parse_range()?;
        let start = lhs.span;
        if self.eat(&TokenOf::Eq) {
            let rhs = self.parse_assign()?;
            let span = start.merge(rhs.span);
            return Some(
                Expr { kind: ExprKind::Assign { target: Box::new(lhs), rhs: Box::new(rhs) }, span },
            );
        }
        let op = match self.peek() {
            TokenOf::PlusEq => Some(BinaryOp::Add),
            TokenOf::MinusEq => Some(BinaryOp::Sub),
            TokenOf::StarEq => Some(BinaryOp::Mul),
            TokenOf::SlashEq => Some(BinaryOp::Div),
            TokenOf::PercentEq => Some(BinaryOp::Rem),
            _ => None,
        };
        if let Some(op) = op {
            self.advance();
            let rhs = self.parse_assign()?;
            let span = start.merge(rhs.span);
            return Some(
                Expr {
                    kind: ExprKind::CompoundAssign { op, target: Box::new(lhs), rhs: Box::new(rhs) },
                    span,
                },
            );
        }
        Some(lhs)
    }

    fn parse_range(&mut self) -> (r: Option<Expr>)
        requires
            old(self).wf(),
        ensures
            final(self).steps(*old(self)),
            r is Some ==> final(self).pos > old(self).pos,
            final(self).gives_lone_literal(*old(self), r),
            final(self).gives_closed_pair(*old(self), r, 6),
        decreases old(self).rem(), 36nat,
    {
        let lhs = self.parse_or()?;
        let start = lhs.span;
        if self.check(&TokenOf::DotDot) || self.check(&TokenOf::DotDotEq) {
            let inclusive = match self.peek() {
                TokenOf::DotDotEq => true,
                _ => false,
            };
            self.advance();
            let end = self.parse_or();
            let end_span = match &end {
                Some(e) => e.span,
                None => start,
            };
            let span = start.merge(end_span);
            let end = match end {
                Some(e) => Some(Box::new(e)),
                None => None,
            };
            return Some(
                Expr { kind: ExprKind::Range { start: Some(Box::new(lhs)), end, inclusive }, span },
            );
        }
        Some(lhs)
    }

    fn binary(lhs: Expr, op: BinaryOp, rhs: Expr) -> (e: Expr)
        ensures
            e == (Expr { kind: ExprKind::Binary { op, lhs: Box::new(lhs), rhs: Box::new(rhs) }, span: lhs.span.merged(rhs.span) }),
    {
        let span = lhs.span.merge(rhs.span);
        Expr { kind: ExprKind::Binary { op, lhs: Box::new(lhs), rhs: Box::new(rhs) }, span }
    }

    fn parse_or(&mut self) -> (r: Option<Expr>)
        requires
            old(self).wf(),
        ensures
            final(self).steps(*old(self)),
            r is Some ==> final(self).pos > old(self).pos,
            final(self).gives_lone_literal(*old(self), r),
            final(self).gives_closed_pair(*old(self), r, 6),
            final(self).gives_literal(*old(self), r, 6),
            final(self).gives_pair(*old(self), r, 6),
        decreases old(self).rem(), 35nat,
    {
        let mut lhs = self.parse_and()?;
        while self.check(&TokenOf::PipePipe)
            invariant
                self.steps(*old(self)),
                self.pos > old(self).pos,
                old(self).at_lone_literal() ==> lhs == old(self).lone_literal() && self.pos == old(self).pos + 1
                    && self.errors == old(self).errors,
                old(self).lit_then(old(self).pos as int, 6) ==> lhs == old(self).literal_at(old(self).pos as int)
                    && self.pos == old(self).pos + 1 && self.errors == old(self).errors,
                old(self).closed_pair() && old(self).pair_level() < 6 ==> lhs == old(self).pair_expr() && self.pos
                    == old(self).pos + 3 && self.errors == old(self).errors,
                old(self).pair_at(6) ==> (lhs == old(self).literal_at(old(self).pos as int) && self.pos == old(self).pos + 1
                    && self.errors == old(self).errors) || (lhs == old(self).pair_expr() && self.pos == old(self).pos + 3
                    && self.errors == old(self).errors),
            decreases self.rem(),
        {
            self.advance();
            proof {
                if old(self).pair_at(6) && self.pos == old(self).pos + 2 {
                    assert(self.token_at(self.pos as int) == old(self).token_at(old(self).pos + 2));
                    assert(self.token_at(self.pos + 1) == old(self).token_at(old(self).pos + 3));
                    assert(self.lit_then(self.pos as int, 5));
                }
            }
            let ghost mid = *self;
            let rhs = self.parse_and()?;
            proof {
                if old(self).pair_at(6) && mid.pos == old(self).pos + 2 {
                    assert(mid.literal_at(mid.pos as int) == old(self).literal_at(old(self).pos + 2));
                }
            }
            lhs = Self::binary(lhs, BinaryOp::Or, rhs);
        }
        Some(lhs)
    }

    fn parse_and(&mut self) -> (r: Option<Expr>)
        requires
            old(self).wf(),
        ensures
            final(self).steps(*old(self)),
            r is Some ==> final(self).pos > old(self).pos,
            final(self).gives_lone_literal(*old(self), r),
            final(self).gives_closed_pair(*old(self), r, 5),
            final(self).gives_literal(*old(self), r, 5),
            final(self).gives_pair(*old(self), r, 5),
        decreases old(self).rem(), 34nat,
    {
        let mut lhs = self.parse_equality()?;
        while self.check(&TokenOf::AmpAmp)
            invariant
                self.steps(*old(self)),
                self.pos > old(self).pos,
                old(self).at_lone_literal() ==> lhs == old(self).lone_literal() && self.pos == old(self).pos + 1
                    && self.errors == old(self).errors,
                old(self).lit_then(old(self).pos as int, 5) ==> lhs == old(self).literal_at(old(self).pos as int)
                    && self.pos == old(self).pos + 1 && self.errors == old(self).errors,
                old(self).closed_pair() && old(self).pair_level() < 5 ==> lhs == old(self).pair_expr() && self.pos
                    == old(self).pos + 3 && self.errors == old(self).errors,
                old(self).pair_at(5) ==> (lhs == old(self).literal_at(old(self).pos as int) && self.pos == old(self).pos + 1
                    && self.errors == old(self).errors) || (lhs == old(self).pair_expr() && self.pos == old(self).pos + 3
                    && self.errors == old(self).errors),
            decreases self.rem(),
        {
            self.advance();
            proof {
                if old(self).pair_at(5) && self.pos == old(self).pos + 2 {
                    assert(self.token_at(self.pos as int) == old(self).token_at(old(self).pos + 2));
                    assert(self.token_at(self.pos + 1) == old(self).token_at(old(self).pos + 3));
                    assert(self.lit_then(self.pos as int, 4));
                }
            }
            let ghost mid = *self;
            let rhs = self.parse_equality()?;
            proof {
                if old(self).pair_at(5) && mid.pos == old(self).pos + 2 {
                    assert(mid.literal_at(mid.pos as int) == old(self).literal_at(old(self).pos + 2));
                }
            }
            lhs = Self::binary(lhs, BinaryOp::And, rhs);
        }
        Some(lhs)
    }

    fn parse_equality(&mut self) -> (r: Option<Expr>)
        requires
            old(self).wf(),
        ensures
            final(self).steps(*old(self)),
            r is Some ==> final(self).pos > old(self).pos,
            final(self).gives_lone_literal(*old(self), r),
            final(self).gives_closed_pair(*old(self), r, 4),
            final(self).gives_literal(*old(self), r, 4),
            final(self).gives_pair(*old(self), r, 4),
        decreases old(self).rem(), 33nat,
    {
        let mut lhs = self.parse_comparison()?;
        loop
            invariant
                self.steps(*old(self)),
                self.pos > old(self).pos,
                old(self).at_lone_literal() ==> lhs == old(self).lone_literal() && self.pos == old(self).pos + 1
                    && self.errors == old(self).errors,
                old(self).lit_then(old(self).pos as int, 4) ==> lhs == old(self).literal_at(old(self).pos as int)
                    && self.pos == old(self).pos + 1 && self.errors == old(self).errors,
                old(self).closed_pair() && old(self).pair_level() < 4 ==> lhs == old(self).pair_expr() && self.pos
                    == old(self).pos + 3 && self.errors == old(self).errors,
                old(self).pair_at(4) ==> (lhs == old(self).literal_at(old(self).pos as int) && self.pos == old(self).pos + 1
                    && self.errors == old(self).errors) || (lhs == old(self).pair_expr() && self.pos == old(self).pos + 3
                    && self.errors == old(self).errors),
            ensures
                self.steps(*old(self)),
                self.pos > old(self).pos,
                old(self).at_lone_literal() ==> lhs == old(self).lone_literal() && self.pos == old(self).pos + 1
                    && self.errors == old(self).errors,
                old(self).lit_then(old(self).pos as int, 4) ==> lhs == old(self).literal_at(old(self).pos as int)
                    && self.pos == old(self).pos + 1 && self.errors == old(self).errors,
                old(self).closed_pair() && old(self).pair_level() < 4 ==> lhs == old(self).pair_expr() && self.pos
                    == old(self).pos + 3 && self.errors == old(self).errors,
                old(self).pair_at(4) ==> lhs == old(self).pair_expr() && self.pos == old(self).pos + 3
                    && self.errors == old(self).errors,
            decreases self.rem(),
        {
            // Support both strict `===` / `!==` and loose `==` / `!=`
            let op = match self.peek() {
                TokenOf::EqEq | TokenOf::EqEqLoose => BinaryOp::Eq,
                TokenOf::BangEq | TokenOf::BangEqLoose => BinaryOp::Ne,
                _ => break,
            };
            self.advance();
            proof {
                if old(self).pair_at(4) && self.pos == old(self).pos + 2 {
                    assert(self.token_at(self.pos as int) == old(self).token_at(old(self).pos + 2));
                    assert(self.token_at(self.pos + 1) == old(self).token_at(old(self).pos + 3));
                    assert(self.lit_then(self.pos as int, 3));
                }
            }
            let ghost mid = *self;
            let rhs = self.parse_comparison()?;
            proof {
                if old(self).pair_at(4) && mid.pos == old(self).pos + 2 {
                    assert(mid.literal_at(mid.pos as int) == old(self).literal_at(old(self).pos + 2));
                }
            }
            lhs = Self::binary(lhs, op, rhs);
        }
        Some(lhs)
    }

    fn parse_comparison(&mut self) -> (r: Option<Expr>)
        requires
            old(self).wf(),
        ensures
            final(self).steps(*old(self)),
            r is Some ==> final(self).pos > old(self).pos,
            final(self).gives_lone_literal(*old(self), r),
            final(self).gives_closed_pair(*old(self), r, 3),
            final(self).gives_literal(*old(self), r, 3),
            final(self).gives_pair(*old(self), r, 3),
        decreases old(self).rem(), 32nat,
    {
        let mut lhs = self.parse_additive()?;
        loop
            invariant
                self.steps(*old(self)),
                self.pos > old(self).pos,
                old(self).at_lone_literal() ==> lhs == old(self).lone_literal() && self.pos == old(self).pos + 1
                    && self.errors == old(self).errors,
                old(self).lit_then(old(self).pos as int, 3) ==> lhs == old(self).literal_at(old(self).pos as int)
                    && self.pos == old(self).pos + 1 && self.errors == old(self).errors,
                old(self).closed_pair() && old(self).pair_level() < 3 ==> lhs == old(self).pair_expr() && self.pos
                    == old(self).pos + 3 && self.errors == old(self).errors,
                old(self).pair_at(3) ==> (lhs == old(self).literal_at(old(self).pos as int) && self.pos == old(self).pos + 1
                    && self.errors == old(self).errors) || (lhs == old(self).pair_expr() && self.pos == old(self).pos + 3
                    && self.errors == old(self).errors),
            ensures
                self.steps(*old(self)),
                self.pos > old(self).pos,
                old(self).at_lone_literal() ==> lhs == old(self).lone_literal() && self.pos == old(self).pos + 1
                    && self.errors == old(self).errors,
                old(self).lit_then(old(self).pos as int, 3) ==> lhs == old(self).literal_at(old(self).pos as int)
                    && self.pos == old(self).pos + 1 && self.errors == old(self).errors,
                old(self).closed_pair() && old(self).pair_level() < 3 ==> lhs == old(self).pair_expr() && self.pos
                    == old(self).pos + 3 && self.errors == old(self).errors,
                old(self).pair_at(3) ==> lhs == old(self).pair_expr() && self.pos == old(self).pos + 3
                    && self.errors == old(self).errors,
            decreases self.rem(),
        {
            let op = match self.peek() {
                TokenOf::Lt => BinaryOp::Lt,
                TokenOf::Gt => BinaryOp::Gt,
                TokenOf::LtEq => BinaryOp::Le,
                TokenOf::GtEq => BinaryOp::Ge,
                _ => break,
            };
            self.advance();
            proof {
                if old(self).pair_at(3) && self.pos == old(self).pos + 2 {
                    assert(self.token_at(self.pos as int) == old(self).token_at(old(self).pos + 2));
                    assert(self.token_at(self.pos + 1) == old(self).token_at(old(self).pos + 3));
                    assert(self.lit_then(self.pos as int, 2));
                }
            }
            let ghost mid = *self;
            let rhs = self.parse_additive()?;
            proof {
                if old(self).pair_at(3) && mid.pos == old(self).pos + 2 {
                    assert(mid.literal_at(mid.pos as int) == old(self).literal_at(old(self).pos + 2));
                }
            }
            lhs = Self::binary(lhs, op, rhs);
        }
        Some(lhs)
    }

    fn parse_additive(&mut self) -> (r: Option<Expr>)
        requires
            old(self).wf(),
        ensures
            final(self).steps(*old(self)),
            r is Some ==> final(self).pos > old(self).pos,
            final(self).gives_lone_literal(*old(self), r),
            final(self).gives_closed_pair(*old(self), r, 2),
            final(self).gives_literal(*old(self), r, 2),
            final(self).gives_pair(*old(self), r, 2),
        decreases old(self).rem(), 31nat,
    {
        let mut lhs = self.parse_multiplicative()?;
        loop
            invariant
                self.steps(*old(self)),
                self.pos > old(self).pos,
                old(self).at_lone_literal() ==> lhs == old(self).lone_literal() && self.pos == old(self).pos + 1
                    && self.errors == old(self).errors,
                old(self).lit_then(old(self).pos as int, 2) ==> lhs == old(self).literal_at(old(self).pos as int)
                    && self.pos == old(self).pos + 1 && self.errors == old(self).errors,
                old(self).closed_pair() && old(self).pair_level() < 2 ==> lhs == old(self).pair_expr() && self.pos
                    == old(self).pos + 3 && self.errors == old(self).errors,
                old(self).pair_at(2) ==> (lhs == old(self).literal_at(old(self).pos as int) && self.pos == old(self).pos + 1
                    && self.errors == old(self).errors) || (lhs == old(self).pair_expr() && self.pos == old(self).pos + 3
                    && self.errors == old(self).errors),
            ensures
                self.steps(*old(self)),
                self.pos > old(self).pos,
                old(self).at_lone_literal() ==> lhs == old(self).lone_literal() && self.pos == old(self).pos + 1
                    && self.errors == old(self).errors,
                old(self).lit_then(old(self).pos as int, 2) ==> lhs == old(self).literal_at(old(self).pos as int)
                    && self.pos == old(self).pos + 1 && self.errors == old(self).errors,
                old(self).closed_pair() && old(self).pair_level() < 2 ==> lhs == old(self).pair_expr() && self.pos
                    == old(self).pos + 3 && self.errors == old(self).errors,
                old(self).pair_at(2) ==> lhs == old(self).pair_expr() && self.pos == old(self).pos + 3
                    && self.errors == old(self).errors,
            decreases self.rem(),
        {
            let op = match self.peek() {
                TokenOf::Plus => BinaryOp::Add,
                TokenOf::Minus => BinaryOp::Sub,
                _ => break,
            };
            self.advance();
            proof {
                if old(self).pair_at(2) && self.pos == old(self).pos + 2 {
                    assert(self.token_at(self.pos as int) == old(self).token_at(old(self).pos + 2));
                    assert(self.token_at(self.pos + 1) == old(self).token_at(old(self).pos + 3));
                    assert(self.lit_then(self.pos as int, 1));
                }
            }
            let ghost mid = *self;
            let rhs = self.parse_multiplicative()?;
            proof {
                if old(self).pair_at(2) && mid.pos == old(self).pos + 2 {
                    assert(mid.literal_at(mid.pos as int) == old(self).literal_at(old(self).pos + 2));
                }
            }
            lhs = Self::binary(lhs, op, rhs);
        }
        Some(lhs)
    }

    fn parse_multiplicative(&mut self) -> (r: Option<Expr>)
        requires
            old(self).wf(),
        ensures
            final(self).steps(*old(self)),
            r is Some ==> final(self).pos > old(self).pos,
            final(self).gives_lone_literal(*old(self), r),
            final(self).gives_closed_pair(*old(self), r, 1),
            final(self).gives_literal(*old(self), r, 1),
            final(self).gives_pair(*old(self), r, 1),
        decreases old(self).rem(), 30nat,
    {
        let mut lhs = self.parse_unary()?;
        loop
            invariant
                self.steps(*old(self)),
                self.pos > old(self).pos,
                old(self).at_lone_literal() ==> lhs == old(self).lone_literal() && self.pos == old(self).pos + 1
                    && self.errors == old(self).errors,
                old(self).lit_then(old(self).pos as int, 1) ==> lhs == old(self).literal_at(old(self).pos as int)
                    && self.pos == old(self).pos + 1 && self.errors == old(self).errors,
                old(self).pair_at(1) ==> (lhs == old(self).literal_at(old(self).pos as int) && self.pos == old(self).pos + 1
                    && self.errors == old(self).errors) || (lhs == old(self).pair_expr() && self.pos == old(self).pos + 3
                    && self.errors == old(self).errors),
            ensures
                self.steps(*old(self)),
                self.pos > old(self).pos,
                old(self).at_lone_literal() ==> lhs == old(self).lone_literal() && self.pos == old(self).pos + 1
                    && self.errors == old(self).errors,
                old(self).lit_then(old(self).pos as int, 1) ==> lhs == old(self).literal_at(old(self).pos as int)
                    && self.pos == old(self).pos + 1 && self.errors == old(self).errors,
                old(self).pair_at(1) ==> lhs == old(self).pair_expr() && self.pos == old(self).pos + 3
                    && self.errors == old(self).errors,
            decreases self.rem(),
        {
            let op = match self.peek() {
                TokenOf::Star => BinaryOp::Mul,
                TokenOf::Slash => BinaryOp::Div,
                TokenOf::Percent => BinaryOp::Rem,
                _ => break,
            };
            self.advance();
            proof {
                if old(self).pair_at(1) && self.pos == old(self).pos + 2 {
                    assert(self.token_at(self.pos as int) == old(self).token_at(old(self).pos + 2));
                    assert(self.token_at(self.pos + 1) == old(self).token_at(old(self).pos + 3));
                    assert(self.lit_then(self.pos as int, 0));
                }
            }
            let ghost mid = *self;
            let rhs = self.parse_unary()?;
            proof {
                if old(self).pair_at(1) && mid.pos == old(self).pos + 2 {
                    assert(mid.literal_at(mid.pos as int) == old(self).literal_at(old(self).pos + 2));
                }
            }
            lhs = Self::binary(lhs, op, rhs);
        }
        Some(lhs)
    }

    fn parse_unary(&mut self) -> (r: Option<Expr>)
        requires
            old(self).wf(),
        ensures
            final(self).steps(*old(self)),
            r is Some ==> final(self).pos > old(self).pos,
            final(self).gives_lone_literal(*old(self), r),
            final(self).gives_literal(*old(self), r, 0),
            old(self).at_prefixed_literal() ==> r == Some(old(self).prefixed_literal()) && final(self).pos == old(self).pos
                + 2 && final(self).errors == old(self).errors,
        decreases old(self).rem(), 29nat,
    {
        let start = self.peek_span();
        let op = match self.peek() {
            TokenOf::Bang => Some(UnaryOp::Not),
            TokenOf::Minus => Some(UnaryOp::Neg),
            _ => None,
        };
        if let Some(op) = op {
            self.advance();
            proof {
                if old(self).at_prefixed_literal() {
                    assert(self.token_at(self.pos as int) == old(self).token_at(old(self).pos + 1));
                    assert(self.token_at(self.pos + 1) == old(self).token_at(old(self).pos + 2));
                    assert(self.lit_then(self.pos as int, 0));
                    assert(self.literal_at(self.pos as int) == old(self).literal_at(old(self).pos + 1));
                }
            }
            let expr = self.parse_unary()?;
            let span = start.merge(expr.span);
            return Some(Expr { kind: ExprKind::Unary { op, expr: Box::new(expr) }, span });
        }
        self.parse_postfix()
    }

    fn parse_postfix(&mut self) -> (r: Option<Expr>)
        requires
            old(self).wf(),
        ensures
            final(self).steps(*old(self)),
            r is Some ==> final(self).pos > old(self).pos,
            final(self).gives_lone_literal(*old(self), r),
            final(self).gives_literal(*old(self), r, 0),
        decreases old(self).rem(), 28nat,
    {
        let mut expr = self.parse_primary()?;
        loop
            invariant
                self.steps(*old(self)),
                self.pos > old(self).pos,
                old(self).at_lone_literal() ==> expr == old(self).lone_literal() && self.pos == old(self).pos + 1
                    && self.errors == old(self).errors,
                old(self).lit_then(old(self).pos as int, 0) ==> expr == old(self).literal_at(old(self).pos as int)
                    && self.pos == old(self).pos + 1 && self.errors == old(self).errors,
            decreases self.rem(),
        {
            match self.peek() {
                TokenOf::LParen => {
                    self.advance();
                    let args = self.parse_call_args();
                    let span = expr.span.merge(self.current_span());
                    expr = Expr { kind: ExprKind::Call { callee: Box::new(expr), args }, span };
                },
                TokenOf::Dot => {
                    self.advance();
                    let field = match self.peek() {
                        TokenOf::Ident(f) => f.clone(),
                        _ => break,
                    };
                    self.advance();
                    let span = expr.span.merge(self.current_span());
                    if self.check(&TokenOf::LParen) {
                        self.advance();
                        let args = self.parse_call_args();
                        let s = expr.span.merge(self.current_span());
                        expr = Expr {
                            kind: ExprKind::MethodCall { receiver: Box::new(expr), method: field, args },
                            span: s,
                        };
                    } else {
                        expr = Expr { kind: ExprKind::Field { base: Box::new(expr), field }, span };
                    }
                },
                TokenOf::LBracket => {
                    self.advance();
                    let index = self.parse_expr()?;
                    self.expect(&TokenOf::RBracket, "`]`");
                    let span = expr.span.merge(self.current_span());
                    expr = Expr {
                        kind: ExprKind::Index { base: Box::new(expr), index: Box::new(index) },
                        span,
                    };
                },
                TokenOf::Await => {
                    self.advance();
                    let span = expr.span.merge(self.current_span());
                    expr = Expr { kind: ExprKind::Await(Box::new(expr)), span };
                },
                TokenOf::As => {
                    self.advance();
                    let ty = match self.parse_type() {
                        Some(t) => t,
                        None => Type::Void(self.current_span()),
                    };
                    let span = expr.span.merge(ty.span());
                    expr = Expr { kind: ExprKind::Cast { expr: Box::new(expr), ty }, span };
                },
                TokenOf::Question => {
                    self.advance();
                    let span = expr.span.merge(self.current_span());
                    // `?` desugars to early-return on Err/None
                    expr = Expr {
                        kind: ExprKind::Unary { op: UnaryOp::Deref, expr: Box::new(expr) },
                        span,
                    };
                },
                _ => break,
            }
        }
        Some(expr)
    }

    fn parse_call_args(&mut self) -> (args: Vec<Expr>)
        requires
            old(self).wf(),
        ensures
            final(self).steps(*old(self)),
            old(self).peek_spec() is RParen ==> args@.len() == 0 && final(self).pos == old(self).pos + 1
                && final(self).errors == old(self).errors,
            old(self).peek_spec() is Eof ==> args@.len() == 0 && final(self).pos == old(self).pos
                && final(self).errors@.len() == old(self).errors@.len() + 1,
            old(self).at_lone_literal() && old(self).token_at(old(self).pos + 1) is RParen ==> args@ == seq![
                old(self).lone_literal(),
            ] && final(self).pos == old(self).pos + 2 && final(self).errors == old(self).errors,
        decreases old(self).rem(), 39nat,
    {
        let mut args: Vec<Expr> = Vec::new();
        while !matches!(self.peek(), TokenOf::RParen | TokenOf::Eof)
            invariant
                self.steps(*old(self)),
                (old(self).peek_spec() is RParen || old(self).peek_spec() is Eof) ==> args@.len() == 0
                    && self.pos == old(self).pos && self.errors == old(self).errors,
                old(self).at_lone_literal() && old(self).token_at(old(self).pos + 1) is RParen ==> (args@.len()
                    == 0 && self.pos == old(self).pos && self.errors == old(self).errors) || (args@ == seq![
                    old(self).lone_literal(),
                ] && self.pos == old(self).pos + 1 && self.errors == old(self).errors),
            ensures
                self.steps(*old(self)),
                (old(self).peek_spec() is RParen || old(self).peek_spec() is Eof) ==> args@.len() == 0
                    && self.pos == old(self).pos && self.errors == old(self).errors,
                old(self).at_lone_literal() && old(self).token_at(old(self).pos + 1) is RParen ==> args@ == seq![
                    old(self).lone_literal(),
                ] && self.pos == old(self).pos + 1 && self.errors == old(self).errors,
            decreases self.rem(),
        {
            if let Some(e) = self.parse_expr() {
                args.push(e);
            }
            if !self.eat(&TokenOf::Comma) {
                break;
            }
        }
        self.expect(&TokenOf::RParen, "`)`");
        args
    }

    /// Comma-separated expressions up to `close` (not consumed).
    fn expr_list(&mut self, close: &Token) -> (elems: Vec<Expr>)
        requires
            old(self).wf(),
        ensures
            final(self).steps(*old(self)),
            (old(self).peek_spec().kind_spec() == close.kind_spec() || old(self).peek_spec() is Eof) ==> elems@.len() == 0
                && final(self).pos == old(self).pos && final(self).errors == old(self).errors,
            old(self).at_lone_literal() && old(self).token_at(old(self).pos + 1).kind_spec() == close.kind_spec() && !(*close is Comma) ==> elems@ == seq![
                old(self).lone_literal(),
            ] && final(self).pos == old(self).pos + 1 && final(self).errors == old(self).errors,
        decreases old(self).rem(), 39nat,
    {
        let mut elems: Vec<Expr> = Vec::new();
        while !self.check(close) && !self.at_eof()
            invariant
                self.steps(*old(self)),
                (old(self).peek_spec().kind_spec() == close.kind_spec() || old(self).peek_spec() is Eof) ==> elems@.len() == 0
                    && self.pos == old(self).pos && self.errors == old(self).errors,
                old(self).at_lone_literal() && old(self).token_at(old(self).pos + 1).kind_spec() == close.kind_spec() && !(*close is Comma) ==> (elems@.len() == 0
                    && self.pos == old(self).pos && self.errors == old(self).errors) || (elems@ == seq![
                    old(self).lone_literal(),
                ] && self.pos == old(self).pos + 1 && self.errors == old(self).errors),
            ensures
                self.steps(*old(self)),
                (old(self).peek_spec().kind_spec() == close.kind_spec() || old(self).peek_spec() is Eof) ==> elems@.len() == 0
                    && self.pos == old(self).pos && self.errors == old(self).errors,
                old(self).at_lone_literal() && old(self).token_at(old(self).pos + 1).kind_spec() == close.kind_spec() && !(*close is Comma) ==> elems@ == seq![
                    old(self).lone_literal(),
                ] && self.pos == old(self).pos + 1 && self.errors == old(self).errors,
            decreases self.rem(),
        {
            if let Some(e) = self.parse_expr() {
                elems.push(e);
            }
            if !self.eat(&TokenOf::Comma) {
                break;
            }
        }
        elems
    }

    fn path_expr(name: &str, start: Span) -> (e: Expr)
        ensures
            e.span == start,
            e.kind matches ExprKind::Path(p) && p.span == start && p.segments@.len() == 1 && p.segments@[0].name@ == name@
                && p.segments@[0].args@.len() == 0 && p.segments@[0].span == start,
    {
        let seg = PathSegment { name: string_of(name), args: Vec::new(), span: start };
        let mut segments: Vec<PathSegment> = Vec::new();
        segments.push(seg);
        let path = Path { segments, span: start };
        Expr { kind: ExprKind::Path(path), span: start }
    }

    fn parse_primary(&mut self) -> (r: Option<Expr>)
        requires
            old(self).wf(),
        ensures
            final(self).steps(*old(self)),
            r is Some ==> final(self).pos > old(self).pos,
            final(self).gives_lone_literal(*old(self), r),
            final(self).gives_literal(*old(self), r, 0),
            old(self).at_paren_literal() ==> r == Some(old(self).literal_at(old(self).pos + 1)) && final(self).pos
                == old(self).pos + 3 && final(self).errors == old(self).errors,
            old(self).at_unit() ==> (r matches Some(e) && e.kind matches ExprKind::TupleLit(v) && v@.len() == 0)
                && final(self).pos == old(self).pos + 2 && final(self).errors == old(self).errors,
        decreases old(self).rem(), 27nat,
    {
        let start = self.peek_span();
        match self.peek() {
            // ── Literals ─────────────────────────────────────────────────────
            TokenOf::IntLit(v) => {
                let v = *v;
                self.advance();
                Some(Expr { kind: ExprKind::IntLit(v), span: start })
            },
            TokenOf::FloatLit(v) => {
                let v = v.clone();
                self.advance();
                Some(Expr { kind: ExprKind::FloatLit(v), span: start })
            },
            TokenOf::BoolLit(v) => {
                let v = *v;
                self.advance();
                Some(Expr { kind: ExprKind::BoolLit(v), span: start })
            },
            TokenOf::StrLit(v) => {
                let v = v.clone();
                self.advance();
                Some(Expr { kind: ExprKind::StrLit(v), span: start })
            },
            TokenOf::CharLit(v) => {
                let v = *v;
                self.advance();
                Some(Expr { kind: ExprKind::CharLit(v), span: start })
            },
            // ── Template literal: `Hello ${name}!` ───────────────────────────
            TokenOf::TemplateLitStart(_) | TokenOf::TemplateLitEnd(_) => {
                self.parse_template_literal(start)
            },
            // ── `this` keyword ───────────────────────────────────────────────
            TokenOf::This => {
                self.advance();
                Some(Self::path_expr("this", start))
            },
            // ── Parenthesised expression or closure `(x) => expr` ────────────
            TokenOf::LParen => {
                // Closure if a `=>` follows the matching `)`.
                if self.is_closure_start() {
                    return self.parse_closure(start);
                }
                self.advance();
                if self.check(&TokenOf::RParen) {
                    self.advance();
                    let span = start.merge(self.current_span());
                    // Check for `() => expr`
                    if self.eat(&TokenOf::FatArrow) {
                        return self.parse_closure_body(Vec::new(), None, start);
                    }
                    return Some(Expr { kind: ExprKind::TupleLit(Vec::new()), span });
                }
                let first = self.parse_expr()?;
                if self.eat(&TokenOf::Comma) {
                    let mut elems: Vec<Expr> = Vec::new();
                    elems.push(first);
                    let mut more = self.expr_list(&TokenOf::RParen);
                    elems.append(&mut more);
                    self.expect(&TokenOf::RParen, "`)`");
                    let span = start.merge(self.current_span());
                    Some(Expr { kind: ExprKind::TupleLit(elems), span })
                } else {
                    self.expect(&TokenOf::RParen, "`)`");
                    Some(first)  // parenthesised expression
                }
            },
            TokenOf::LBracket => {
                self.advance();
                let elems = self.expr_list(&TokenOf::RBracket);
                self.expect(&TokenOf::RBracket, "`]`");
                let span = start.merge(self.current_span());
                Some(Expr { kind: ExprKind::ArrayLit(elems), span })
            },
            TokenOf::LBrace => {
                let block = self.parse_block()?;
                let span = block.span;
                Some(Expr { kind: ExprKind::Block(block), span })
            },
            TokenOf::If => self.parse_if(),
            TokenOf::Match => self.parse_match(),
            TokenOf::While => self.parse_while(),
            TokenOf::Loop => {
                self.advance();
                let body = self.parse_block()?;
                let span = start.merge(body.span);
                Some(Expr { kind: ExprKind::Loop(body), span })
            },
            TokenOf::For => self.parse_for(),
            TokenOf::Return => {
                self.advance();
                let value = self.opt_value();
                let span = start.merge(self.current_span());
                Some(Expr { kind: ExprKind::Return { value }, span })
            },
            TokenOf::Break => {
                self.advance();
                let value = self.opt_value();
                let span = start.merge(self.current_span());
                Some(Expr { kind: ExprKind::Break { value }, span })
            },
            TokenOf::Continue => {
                self.advance();
                Some(Expr { kind: ExprKind::Continue, span: start })
            },
            TokenOf::Async => {
                // `async (_) => { ... }` — async closure
                let next_opens = self.pos + 1 < self.tokens.len() && match &self.tokens[self.pos
                    + 1].node {
                    TokenOf::LParen | TokenOf::FatArrow => true,
                    _ => false,
                };
                if next_opens {
                    let p0 = self.pos;
                    self.advance();
                    if self.is_closure_start() {
                        return self.parse_closure(start);
                    }
                }
                self.error_here("expression");
                None
            },
            TokenOf::Ident(name) => {
                let name = name.clone();
                self.advance();
                // Path: `Foo.Bar` or `Foo::Bar` — dot notation for enum variants
                let mut segments: Vec<PathSegment> = Vec::new();
                segments.push(PathSegment { name, args: Vec::new(), span: start });
                while self.eat(&TokenOf::Dot) || self.eat(&TokenOf::ColonColon)
                    invariant
                        self.steps(*old(self)),
                        self.pos > old(self).pos,
                    decreases self.rem(),
                {
                    match self.peek() {
                        TokenOf::Ident(seg) => {
                            let seg = seg.clone();
                            let s = self.peek_span();
                            self.advance();
                            segments.push(PathSegment { name: seg, args: Vec::new(), span: s });
                        },
                        _ => break,
                    }
                }
                let span = start.merge(self.current_span());
                let path = Path { segments, span };
                Some(Expr { kind: ExprKind::Path(path), span })
            },
            _ => {
                self.error_here("expression");
                None
            },
        }
    }

    /// The optional operand of `return` / `break`.
    fn opt_value(&mut self) -> (r: Option<Box<Expr>>)
        requires
            old(self).wf(),
        ensures
            final(self).steps(*old(self)),
            (old(self).peek_spec() is Semi || old(self).peek_spec() is RBrace || old(self).peek_spec() is Eof) ==> r is None
                && final(self).pos == old(self).pos && final(self).errors@ == old(self).errors@,
            r matches Some(e) ==> final(self).pos > old(self).pos,
            old(self).at_lone_literal() ==> (r matches Some(e) && *e == old(self).lone_literal()) && final(self).pos
                == old(self).pos + 1 && final(self).errors == old(self).errors,
        decreases old(self).rem(), 39nat,
    {
        if !matches!(self.peek(), TokenOf::Semi | TokenOf::RBrace | TokenOf::Eof) {
            match self.parse_expr() {
                Some(e) => Some(Box::new(e)),
                None => None,
            }
        } else {
            None
        }
    }

    // ── Template literal parsing ─────────────────────────────────────────────

    fn parse_template_literal(&mut self, start: Span) -> (r: Option<Expr>)
        requires
            old(self).wf(),
            old(self).peek_spec() is TemplateLitStart || old(self).peek_spec() is TemplateLitEnd,
        ensures
            final(self).steps(*old(self)),
            final(self).pos > old(self).pos,
        decreases old(self).rem(), 26nat,
    {
        let mut parts: Vec<TemplatePart> = Vec::new();
        loop
            invariant
                self.steps(*old(self)),
                self.pos > old(self).pos || self.peek_spec() is TemplateLitStart
                    || self.peek_spec() is TemplateLitEnd,
            ensures
                self.steps(*old(self)),
                self.pos > old(self).pos,
            decreases self.rem(),
        {
            match self.peek() {
                TokenOf::TemplateLitStart(text) | TokenOf::TemplateLitMid(text) => {
                    let text = text.clone();
                    self.advance();
                    parts.push(TemplatePart::Str(text));
                    // Next comes the interpolated expression; the lexer ends it
                    // with the literal's next segment.
                    let expr = self.parse_expr()?;
                    parts.push(TemplatePart::Expr(Box::new(expr)));
                },
                TokenOf::TemplateLitEnd(text) => {
                    let text = text.clone();
                    self.advance();
                    parts.push(TemplatePart::Str(text));
                    break;
                },
                _ => break,
            }
        }
        let span = start.merge(self.current_span());
        Some(Expr { kind: ExprKind::TemplateLit { parts }, span })
    }

    // ── Closure parsing `(x: i32, y: i32): R => expr` ────────────────────────

    /// Heuristic: whether the `(` here starts a closure, i.e. its matching
    /// `)` is followed (possibly after `: Type` tokens) by `=>` before any
    /// `{` or end of file.
    fn is_closure_start(&self) -> (b: bool)
        ensures
            b == closure_start(self.tokens@, self.pos as int),
    {
        let ghost t = self.tokens@;
        let mut depth: usize = 0;
        let mut i = self.pos;
        if !(i < self.tokens.len() && match &self.tokens[i].node {
            TokenOf::LParen => true,
            _ => false,
        }) {
            return false;
        }
        i = i + 1;
        // Scan until matching `)` at depth 0
        while i < self.tokens.len()
            invariant
                t == self.tokens@,
                depth <= i,
                self.pos < i <= t.len(),
                t[self.pos as int].node is LParen,
                paren_close(t, self.pos + 1, 0) == paren_close(t, i as int, depth as int),
            decreases self.tokens.len() - i,
        {
            match &self.tokens[i].node {
                TokenOf::Eof => return false,
                TokenOf::LParen => {
                    depth = depth + 1;
                    i = i + 1;
                },
                TokenOf::RParen => {
                    if depth > 0 {
                        depth = depth - 1;
                        i = i + 1;
                    } else {
                        i = i + 1;  // consume `)`
                        // After `)`, might see `: RetType` then `=>`
                        if i < self.tokens.len() && match &self.tokens[i].node {
                            TokenOf::Colon => true,
                            _ => false,
                        } {
                            i = i + 1;
                        }
                        // Skip type tokens until `=>`
                        let mut j = i;
                        while j < self.tokens.len()
                            invariant
                                t == self.tokens@,
                                i <= j <= t.len(),
                                closure_start(t, self.pos as int) == arrow_after(t, j as int),
                            decreases self.tokens.len() - j,
                        {
                            match &self.tokens[j].node {
                                TokenOf::FatArrow => return true,
                                TokenOf::LBrace | TokenOf::Eof => return false,
                                _ => {
                                    j = j + 1;
                                },
                            }
                        }
                        return false;
                    }
                },
                _ => {
                    i = i + 1;
                },
            }
        }
        false
    }

    fn parse_closure(&mut self, start: Span) -> (r: Option<Expr>)
        requires
            old(self).wf(),
            !(old(self).peek_spec() is Eof),
        ensures
            final(self).steps(*old(self)),
            final(self).pos > old(self).pos,
        decreases old(self).rem(), 26nat,
    {
        self.advance();  // `(`
        let mut params: Vec<ClosureParam> = Vec::new();
        while !matches!(self.peek(), TokenOf::RParen | TokenOf::Eof)
            invariant
                self.steps(*old(self)),
                self.pos > old(self).pos,
            decreases self.rem(),
        {
            let pstart = self.peek_span();
            let pat = self.parse_pattern()?;
            let ty = if self.eat(&TokenOf::Colon) {
                self.parse_type()
            } else {
                None
            };
            let pspan = pstart.merge(self.current_span());
            params.push(ClosureParam { pat, ty, span: pspan });
            if !self.eat(&TokenOf::Comma) {
                break;
            }
        }
        self.expect(&TokenOf::RParen, "`)`");
        // Optional return type annotation: `: RetType`
        let ret = if self.eat(&TokenOf::Colon) {
            self.parse_type()
        } else {
            None
        };
        self.expect(&TokenOf::FatArrow, "`=>`");
        self.parse_closure_body(params, ret, start)
    }

    fn parse_closure_body(&mut self, params: Vec<ClosureParam>, ret: Option<Type>, start: Span) -> (r: Option<Expr>)
        requires
            old(self).wf(),
        ensures
            final(self).steps(*old(self)),
            r matches Some(e) ==> e.kind matches ExprKind::Closure { params: p, ret: rt, body } && p == params
                && rt == ret && e.span == start.merged(body.span),
            old(self).at_lone_literal() ==> (r matches Some(e) && e.kind matches ExprKind::Closure { body, .. }
                && *body == old(self).lone_literal()) && final(self).pos == old(self).pos + 1 && final(self).errors
                == old(self).errors,
        decreases old(self).rem(), 39nat,
    {
        let body = if self.check(&TokenOf::LBrace) {
            let block = self.parse_block()?;
            let span = block.span;
            Box::new(Expr { kind: ExprKind::Block(block), span })
        } else {
            Box::new(self.parse_expr()?)
        };
        let span = start.merge(body.span);
        Some(Expr { kind: ExprKind::Closure { params, ret, body }, span })
    }

    // ── Control flow expressions ─────────────────────────────────────────────

    fn parse_if(&mut self) -> (r: Option<Expr>)
        requires
            old(self).wf(),
            !(old(self).peek_spec() is Eof),
        ensures
            final(self).steps(*old(self)),
            final(self).pos > old(self).pos,
        decreases old(self).rem(), 26nat,
    {
        let start = self.peek_span();
        self.advance();  // `if`
        let cond = self.parse_expr()?;
        let then = self.parse_block()?;
        let else_ = if self.eat(&TokenOf::Else) {
            if self.check(&TokenOf::If) {
                match self.parse_if() {
                    Some(e) => Some(Box::new(e)),
                    None => None,
                }
            } else {
                let block = self.parse_block()?;
                let span = block.span;
                Some(Box::new(Expr { kind: ExprKind::Block(block), span }))
            }
        } else {
            None
        };
        let span = start.merge(self.current_span());
        Some(Expr { kind: ExprKind::If { cond: Box::new(cond), then, else_ }, span })
    }

    fn parse_match(&mut self) -> (r: Option<Expr>)
        requires
            old(self).wf(),
            !(old(self).peek_spec() is Eof),
        ensures
            final(self).steps(*old(self)),
            final(self).pos > old(self).pos,
        decreases old(self).rem(), 26nat,
    {
        let start = self.peek_span();
        self.advance();  // `match`
        let scrutinee = self.parse_expr()?;
        self.expect(&TokenOf::LBrace, "`{`");
        let mut arms: Vec<MatchArm> = Vec::new();
        while !matches!(self.peek(), TokenOf::RBrace | TokenOf::Eof)
            invariant
                self.steps(*old(self)),
                self.pos > old(self).pos,
            decreases self.rem(),
        {
            let astart = self.peek_span();
            let pattern = self.parse_pattern()?;
            // Guard: `if condition`
            let guard = if self.eat(&TokenOf::If) {
                match self.parse_expr() {
                    Some(g) => Some(Box::new(g)),
                    None => None,
                }
            } else {
                None
            };
            self.expect(&TokenOf::FatArrow, "`=>`");
            let body = self.parse_expr()?;
            self.eat(&TokenOf::Comma);
            let span = astart.merge(body.span);
            arms.push(MatchArm { pattern, guard, body: Box::new(body), span });
        }
        self.expect(&TokenOf::RBrace, "`}`");
        let span = start.merge(self.current_span());
        Some(Expr { kind: ExprKind::Match { scrutinee: Box::new(scrutinee), arms }, span })
    }

    fn parse_while(&mut self) -> (r: Option<Expr>)
        requires
            old(self).wf(),
            !(old(self).peek_spec() is Eof),
        ensures
            final(self).steps(*old(self)),
            final(self).pos > old(self).pos,
        decreases old(self).rem(), 26nat,
    {
        let start = self.peek_span();
        self.advance();
        let cond = self.parse_expr()?;
        let body = self.parse_block()?;
        let span = start.merge(body.span);
        Some(Expr { kind: ExprKind::While { cond: Box::new(cond), body }, span })
    }

    fn parse_for(&mut self) -> (r: Option<Expr>)
        requires
            old(self).wf(),
            !(old(self).peek_spec() is Eof),
        ensures
            final(self).steps(*old(self)),
            final(self).pos > old(self).pos,
        decreases old(self).rem(), 26nat,
    {
        let start = self.peek_span();
        self.advance();  // `for`
        let pat = self.parse_pattern()?;
        self.expect(&TokenOf::In, "`in`");
        let iter = self.parse_expr()?;
        let body = self.parse_block()?;
        let span = start.merge(body.span);
        Some(Expr { kind: ExprKind::For { pat, iter: Box::new(iter), body }, span })
    }
}

/// The first `all.len() - n` elements of `all`.
pub open spec fn kept_src_prefix<A>(all: Seq<A>, n: int) -> Seq<A> {
    all.subrange(0, all.len() - n)
}

proof fn lemma_prefix_step(all: Seq<Spanned<Token>>, n: int)
    requires
        1 <= n <= all.len(),
    ensures
        kept_src_prefix(all, n - 1) == kept_src_prefix(all, n).push(all[all.len() - n]),
{
    assert(kept_src_prefix(all, n - 1) =~= kept_src_prefix(all, n).push(all[all.len() - n]));
}

/// `b` extends `a`: every entry of `a` stays where it was.
pub open spec fn grows<A>(a: Seq<A>, b: Seq<A>) -> bool {
    &&& a.len() <= b.len()
    &&& forall|i: int| 0 <= i < a.len() ==> #[trigger] a[i] == b[i]
}

proof fn lemma_kind_eof(a: Token, b: Token)
    requires
        a.kind_spec() == b.kind_spec(),
        !(b is Eof),
    ensures
        !(a is Eof),
{
}

} // verus!
