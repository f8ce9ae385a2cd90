//! Hand-written lexer for Selvr.
//!
//! Produces a flat list of spanned tokens including trivia (comments).
//! Errors are collected rather than aborting: a bad character yields
//! `Token::Error` and lexing continues.  Spans are byte offsets into the
//! UTF-8 source.
//!
//! Template literals are split into segments: the text before the first `${`
//! is a `TemplateLitStart`, the interpolated expression is lexed as ordinary
//! tokens up to its closing `}`, and the literal then goes on as a
//! `TemplateLitMid` (before the next `${`) or a `TemplateLitEnd` (up to the
//! closing backtick).  A literal without interpolation is a single
//! `TemplateLitEnd`.
//!
//! The whole behaviour is specified by [`lex_tokens`]: the token list is the
//! result of repeatedly applying [`lex_step`] from the start of the input.

use vstd::prelude::*;
use crate::text::{
    byte_offset, char_utf8_width, chars_of, is_alphabetic, is_alphanumeric, is_ascii_digit,
    is_ascii_digit_spec, is_ascii_hexdigit, is_ascii_hexdigit_spec, is_whitespace,
    is_whitespace_spec, lemma_byte_offset_bounds, lemma_byte_offset_mono, push_char,
    string_from_chars, unicode_alphabetic, unicode_alphanumeric,
};
use crate::token::{LexError, Span, Spanned, Token, TokenOf};

verus! {

/// Spec-level token (text payloads as `Seq<char>`).
pub type TokenV = TokenOf<Seq<char>>;

// ── Character classes used while scanning ────────────────────────────────────

/// The character classes the lexer scans runs of.
pub enum Class {
    Whitespace,
    DecDigitOrUnderscore,
    HexDigitOrUnderscore,
    BinDigitOrUnderscore,
    AsciiDigit,
    IdentContinue,
    NotNewline,
}

pub open spec fn in_class(k: Class, c: char) -> bool {
    match k {
        Class::Whitespace => is_whitespace_spec(c),
        Class::DecDigitOrUnderscore => is_ascii_digit_spec(c) || c == '_',
        Class::HexDigitOrUnderscore => is_ascii_hexdigit_spec(c) || c == '_',
        Class::BinDigitOrUnderscore => c == '0' || c == '1' || c == '_',
        Class::AsciiDigit => is_ascii_digit_spec(c),
        Class::IdentContinue => unicode_alphanumeric(c) || c == '_',
        Class::NotNewline => c != '\n',
    }
}

/// End of the maximal run of `k`-characters starting at `i`.
pub open spec fn scan(s: Seq<char>, i: int, k: Class) -> int
    decreases s.len() - i,
{
    if 0 <= i < s.len() && in_class(k, s[i]) {
        scan(s, i + 1, k)
    } else {
        i
    }
}

/// Where a scan stops, the class no longer holds.
pub proof fn lemma_scan_stops(s: Seq<char>, i: int, k: Class)
    ensures
        !(0 <= scan(s, i, k) < s.len() && in_class(k, s[scan(s, i, k)])),
    decreases s.len() - i,
{
    if 0 <= i < s.len() && in_class(k, s[i]) {
        lemma_scan_stops(s, i + 1, k);
    }
}

pub proof fn lemma_scan_bounds(s: Seq<char>, i: int, k: Class)
    requires
        0 <= i <= s.len(),
    ensures
        i <= scan(s, i, k) <= s.len(),
    decreases s.len() - i,
{
    if i < s.len() && in_class(k, s[i]) {
        lemma_scan_bounds(s, i + 1, k);
    }
}

/// `s[i] == c` (false past the end).
pub open spec fn at(s: Seq<char>, i: int, c: char) -> bool {
    0 <= i < s.len() && s[i] == c
}

/// The span of characters `a..b`, in bytes.
pub open spec fn sp(s: Seq<char>, a: int, b: int, fid: u32) -> Span {
    Span { start: byte_offset(s, a) as usize, end: byte_offset(s, b) as usize, file_id: fid }
}

// ── Numbers ──────────────────────────────────────────────────────────────────

/// `t` without its `_` separators.
pub open spec fn strip_underscores(t: Seq<char>) -> Seq<char>
    decreases t.len(),
{
    if t.len() == 0 {
        t
    } else if t.last() == '_' {
        strip_underscores(t.drop_last())
    } else {
        strip_underscores(t.drop_last()).push(t.last())
    }
}

pub open spec fn digit_value(c: char) -> nat {
    if '0' <= c && c <= '9' {
        (c as nat - '0' as nat) as nat
    } else if 'a' <= c && c <= 'f' {
        (c as nat - 'a' as nat + 10) as nat
    } else if 'A' <= c && c <= 'F' {
        (c as nat - 'A' as nat + 10) as nat
    } else {
        0
    }
}

/// Value of a digit string in the given radix.
pub open spec fn digits_value(t: Seq<char>, radix: nat) -> nat
    decreases t.len(),
{
    if t.len() == 0 {
        0
    } else {
        digits_value(t.drop_last(), radix) * radix + digit_value(t.last())
    }
}

/// What `i64` parsing of a digit string gives: `None` on an empty string or
/// a value above `i64::MAX`.
pub open spec fn parse_i64_digits(t: Seq<char>, radix: nat) -> Option<i64> {
    if t.len() == 0 || digits_value(t, radix) > i64::MAX {
        None
    } else {
        Some(digits_value(t, radix) as i64)
    }
}

/// Result of lexing one token: the token, the character range its span
/// covers, where lexing continues, and the errors reported on the way.
pub struct LexStep {
    pub tok: TokenV,
    pub start: int,
    pub end: int,
    pub next: int,
    pub errs: Seq<LexError>,
}

/// An integer literal from its text `start..end`: a parse failure reports
/// `IntegerOverflow` and yields 0.
pub open spec fn int_literal(s: Seq<char>, start: int, end: int, digits: Seq<char>, radix: nat, fid: u32) -> (
    TokenV,
    Seq<LexError>,
) {
    match parse_i64_digits(digits, radix) {
        Some(v) => (TokenOf::IntLit(v), seq![]),
        None => (TokenOf::IntLit(0), seq![LexError::IntegerOverflow { span: sp(s, start, end, fid) }]),
    }
}

/// A numeric literal whose first digit is at `start`.
pub open spec fn lex_number(s: Seq<char>, start: int, fid: u32) -> (TokenV, int, Seq<LexError>) {
    let i = start + 1;
    if s[start] == '0' && (at(s, i, 'x') || at(s, i, 'X')) {
        let j = scan(s, i + 1, Class::HexDigitOrUnderscore);
        let (t, e) = int_literal(s, start, j, strip_underscores(s.subrange(start + 2, j)), 16, fid);
        (t, j, e)
    } else if s[start] == '0' && (at(s, i, 'b') || at(s, i, 'B')) {
        let j = scan(s, i + 1, Class::BinDigitOrUnderscore);
        let (t, e) = int_literal(s, start, j, strip_underscores(s.subrange(start + 2, j)), 2, fid);
        (t, j, e)
    } else {
        let j = scan(s, i, Class::DecDigitOrUnderscore);
        if at(s, j, '.') && j + 1 < s.len() && is_ascii_digit_spec(s[j + 1]) {
            let k = scan(s, j + 1, Class::DecDigitOrUnderscore);
            if at(s, k, 'e') || at(s, k, 'E') {
                let k2 = if at(s, k + 1, '+') || at(s, k + 1, '-') {
                    k + 2
                } else {
                    k + 1
                };
                let k3 = scan(s, k2, Class::AsciiDigit);
                if k3 == k2 {
                    // an exponent without digits does not parse: the value is zero
                    (TokenOf::FloatLit("0.0"@), k3, seq![])
                } else {
                    (TokenOf::FloatLit(strip_underscores(s.subrange(start, k3))), k3, seq![])
                }
            } else {
                (TokenOf::FloatLit(strip_underscores(s.subrange(start, k))), k, seq![])
            }
        } else {
            let (t, e) = int_literal(s, start, j, strip_underscores(s.subrange(start, j)), 10, fid);
            (t, j, e)
        }
    }
}

// ── Words ────────────────────────────────────────────────────────────────────

/// The keyword (or boolean literal) spelled by `w`, if any.
pub open spec fn keyword(w: Seq<char>) -> Option<TokenV> {
    if w == "fn"@ {
        Some(TokenOf::Fn)
    } else if w == "let"@ {
        Some(TokenOf::Let)
    } else if w == "const"@ {
        Some(TokenOf::Const)
    } else if w == "if"@ {
        Some(TokenOf::If)
    } else if w == "else"@ {
        Some(TokenOf::Else)
    } else if w == "match"@ {
        Some(TokenOf::Match)
    } else if w == "return"@ {
        Some(TokenOf::Return)
    } else if w == "struct"@ {
        Some(TokenOf::Struct)
    } else if w == "enum"@ {
        Some(TokenOf::Enum)
    } else if w == "impl"@ {
        Some(TokenOf::Impl)
    } else if w == "trait"@ {
        Some(TokenOf::Trait)
    } else if w == "for"@ {
        Some(TokenOf::For)
    } else if w == "in"@ {
        Some(TokenOf::In)
    } else if w == "while"@ {
        Some(TokenOf::While)
    } else if w == "loop"@ {
        Some(TokenOf::Loop)
    } else if w == "break"@ {
        Some(TokenOf::Break)
    } else if w == "continue"@ {
        Some(TokenOf::Continue)
    } else if w == "import"@ {
        Some(TokenOf::Import)
    } else if w == "export"@ {
        Some(TokenOf::Export)
    } else if w == "mod"@ {
        Some(TokenOf::Mod)
    } else if w == "type"@ {
        Some(TokenOf::Type)
    } else if w == "as"@ {
        Some(TokenOf::As)
    } else if w == "async"@ {
        Some(TokenOf::Async)
    } else if w == "await"@ {
        Some(TokenOf::Await)
    } else if w == "macro"@ {
        Some(TokenOf::Macro)
    } else if w == "where"@ {
        Some(TokenOf::Where)
    } else if w == "this"@ {
        Some(TokenOf::This)
    } else if w == "true"@ {
        Some(TokenOf::BoolLit(true))
    } else if w == "false"@ {
        Some(TokenOf::BoolLit(false))
    } else if w == "i32"@ {
        Some(TokenOf::KwI32)
    } else if w == "i64"@ {
        Some(TokenOf::KwI64)
    } else if w == "f32"@ {
        Some(TokenOf::KwF32)
    } else if w == "f64"@ {
        Some(TokenOf::KwF64)
    } else if w == "boolean"@ {
        Some(TokenOf::KwBoolean)
    } else if w == "string"@ {
        Some(TokenOf::KwString)
    } else if w == "char"@ {
        Some(TokenOf::KwChar)
    } else if w == "void"@ {
        Some(TokenOf::KwVoid)
    } else if w == "number"@ {
        Some(TokenOf::KwNumber)
    } else {
        None
    }
}

pub open spec fn word_token(w: Seq<char>) -> TokenV {
    match keyword(w) {
        Some(t) => t,
        None => TokenOf::Ident(w),
    }
}

// ── Escapes, strings, characters ─────────────────────────────────────────────

pub open spec fn simple_escape(c: char) -> Option<char> {
    if c == 'n' {
        Some('\n')
    } else if c == 't' {
        Some('\t')
    } else if c == 'r' {
        Some('\r')
    } else if c == '\\' {
        Some('\\')
    } else if c == '"' {
        Some('"')
    } else if c == '\'' {
        Some('\'')
    } else if c == '`' {
        Some('`')
    } else if c == '0' {
        Some('\0')
    } else {
        None
    }
}

/// What an escape decodes to: a quote, backslash or backtick stands for
/// itself; any other escape stands for a control character (below U+0020),
/// namely the C one its letter names (n: line feed, t: tab, r: carriage
/// return, 0: NUL); no two escapes decode alike.
pub proof fn lemma_escapes_decode_to_controls(c: char, e: char)
    ensures
        simple_escape(c) is Some ==> (simple_escape(c)->0 == c <==> (c == '\\' || c == '"' || c == '\'' || c == '`')),
        simple_escape(c) is Some && simple_escape(c)->0 != c ==> (simple_escape(c)->0 as u32) < 0x20,
        simple_escape(c) is Some && simple_escape(e) == simple_escape(c) ==> c == e,
        simple_escape('n')->0 as u32 == 10,
        simple_escape('t')->0 as u32 == 9,
        simple_escape('r')->0 as u32 == 13,
        simple_escape('0')->0 as u32 == 0,
{
}

/// An escape whose backslash is at `i - 1`, inside a literal starting at `lit`.
pub open spec fn lex_escape(s: Seq<char>, i: int, lit: int, fid: u32) -> (Option<char>, int, Seq<LexError>) {
    if i >= s.len() {
        (None, i, seq![LexError::UnterminatedString { span: sp(s, lit, i, fid) }])
    } else {
        match simple_escape(s[i]) {
            Some(c) => (Some(c), i + 1, seq![]),
            None => (
                None,
                i + 1,
                seq![LexError::InvalidEscape { ch: s[i], span: sp(s, i - 1, i + 1, fid) }],
            ),
        }
    }
}

/// Body of a string literal from `i` (after the opening quote).
pub open spec fn lex_string_body(s: Seq<char>, i: int, lit: int, fid: u32) -> (Seq<char>, int, Seq<LexError>)
    decreases s.len() - i,
{
    if i < 0 || i >= s.len() {
        (seq![], i, seq![LexError::UnterminatedString { span: sp(s, lit, i, fid) }])
    } else if s[i] == '\n' {
        (seq![], i + 1, seq![LexError::UnterminatedString { span: sp(s, lit, i + 1, fid) }])
    } else if s[i] == '"' {
        (seq![], i + 1, seq![])
    } else if s[i] == '\\' {
        let (e, j, errs) = lex_escape(s, i + 1, lit, fid);
        if j <= i {
            (seq![], j, errs)
        } else {
            let (v, k, errs2) = lex_string_body(s, j, lit, fid);
            match e {
                Some(c) => (seq![c] + v, k, errs + errs2),
                None => (v, k, errs + errs2),
            }
        }
    } else {
        let (v, k, errs) = lex_string_body(s, i + 1, lit, fid);
        (seq![s[i]] + v, k, errs)
    }
}

/// A character literal whose opening quote is at `lit` (content at `lit + 1`).
pub open spec fn lex_char(s: Seq<char>, lit: int, fid: u32) -> (TokenV, int, Seq<LexError>) {
    let i = lit + 1;
    if i >= s.len() {
        (TokenOf::Error('\''), i, seq![LexError::UnterminatedString { span: sp(s, lit, i, fid) }])
    } else if s[i] == '\\' && lex_escape(s, i + 1, lit, fid).0 is None {
        let (_e, j, errs) = lex_escape(s, i + 1, lit, fid);
        (TokenOf::Error('\''), j, errs)
    } else {
        let (ch, p, errs): (char, int, Seq<LexError>) = if s[i] == '\\' {
            let (e, j, errs) = lex_escape(s, i + 1, lit, fid);
            (e->0, j, errs)
        } else {
            (s[i], i + 1, seq![])
        };
        if at(s, p, '\'') {
            (TokenOf::CharLit(ch), p + 1, errs)
        } else {
            (
                TokenOf::CharLit(ch),
                p,
                errs.push(LexError::UnterminatedString { span: sp(s, lit, p, fid) }),
            )
        }
    }
}

// ── Comments and template literals ───────────────────────────────────────────

/// Scans a block comment body from `i` at nesting `depth`; returns where it
/// ends and whether it was closed.
pub open spec fn block_comment_end(s: Seq<char>, i: int, depth: nat) -> (int, bool)
    decreases s.len() - i,
{
    if i < 0 || i >= s.len() {
        (i, false)
    } else if s[i] == '*' && at(s, i + 1, '/') {
        if depth <= 1 {
            (i + 2, true)
        } else {
            block_comment_end(s, i + 2, (depth - 1) as nat)
        }
    } else if s[i] == '/' && at(s, i + 1, '*') {
        block_comment_end(s, i + 2, depth + 1)
    } else {
        block_comment_end(s, i + 1, depth)
    }
}

/// Text of a template-literal segment from `i`, and where scanning stops
/// (after a closing backtick, or at `${`, or at the end).
pub open spec fn template_segment(s: Seq<char>, i: int) -> (Seq<char>, int)
    decreases s.len() - i,
{
    if i < 0 || i >= s.len() {
        (seq![], i)
    } else if s[i] == '`' {
        (seq![], i + 1)
    } else if s[i] == '$' && at(s, i + 1, '{') {
        (seq![], i)
    } else if s[i] == '\\' {
        if i + 1 >= s.len() {
            (seq![], i + 1)
        } else {
            let d = s[i + 1];
            let pre: Seq<char> = if d == '`' {
                seq!['`']
            } else if d == '$' {
                seq!['$']
            } else if d == 'n' {
                seq!['\n']
            } else if d == 't' {
                seq!['\t']
            } else if d == '\\' {
                seq!['\\']
            } else {
                seq!['\\', d]
            };
            let (r, j) = template_segment(s, i + 2);
            (pre + r, j)
        }
    } else {
        let (r, j) = template_segment(s, i + 1);
        (seq![s[i]] + r, j)
    }
}

// ── One token ────────────────────────────────────────────────────────────────

pub open spec fn simple_step(tok: TokenV, start: int, next: int, errs: Seq<LexError>) -> LexStep {
    LexStep { tok, start, end: next, next, errs }
}

/// The punctuation token starting with `c` (already consumed, next char at
/// `i`), if `c` starts one.
pub open spec fn punct(s: Seq<char>, c: char, i: int) -> Option<(TokenV, int)> {
    if c == '(' {
        Some((TokenOf::LParen, i))
    } else if c == ')' {
        Some((TokenOf::RParen, i))
    } else if c == '{' {
        Some((TokenOf::LBrace, i))
    } else if c == '}' {
        Some((TokenOf::RBrace, i))
    } else if c == '[' {
        Some((TokenOf::LBracket, i))
    } else if c == ']' {
        Some((TokenOf::RBracket, i))
    } else if c == ';' {
        Some((TokenOf::Semi, i))
    } else if c == ',' {
        Some((TokenOf::Comma, i))
    } else if c == '~' {
        Some((TokenOf::Tilde, i))
    } else if c == '^' {
        Some((TokenOf::Caret, i))
    } else if c == '@' {
        Some((TokenOf::At, i))
    } else if c == '#' {
        Some((TokenOf::Hash, i))
    } else if c == '+' {
        Some(if at(s, i, '=') { (TokenOf::PlusEq, i + 1) } else { (TokenOf::Plus, i) })
    } else if c == '%' {
        Some(if at(s, i, '=') { (TokenOf::PercentEq, i + 1) } else { (TokenOf::Percent, i) })
    } else if c == '!' {
        Some(
            if at(s, i, '=') {
                if at(s, i + 1, '=') {
                    (TokenOf::BangEq, i + 2)
                } else {
                    (TokenOf::BangEqLoose, i + 1)
                }
            } else {
                (TokenOf::Bang, i)
            },
        )
    } else if c == '=' {
        Some(
            if at(s, i, '=') {
                if at(s, i + 1, '=') {
                    (TokenOf::EqEq, i + 2)
                } else {
                    (TokenOf::EqEqLoose, i + 1)
                }
            } else if at(s, i, '>') {
                (TokenOf::FatArrow, i + 1)
            } else {
                (TokenOf::Eq, i)
            },
        )
    } else if c == '<' {
        Some(
            if at(s, i, '=') {
                (TokenOf::LtEq, i + 1)
            } else if at(s, i, '<') {
                (TokenOf::LtLt, i + 1)
            } else {
                (TokenOf::Lt, i)
            },
        )
    } else if c == '>' {
        Some(
            if at(s, i, '=') {
                (TokenOf::GtEq, i + 1)
            } else if at(s, i, '>') {
                (TokenOf::GtGt, i + 1)
            } else {
                (TokenOf::Gt, i)
            },
        )
    } else if c == '-' {
        Some(
            if at(s, i, '>') {
                (TokenOf::Arrow, i + 1)
            } else if at(s, i, '=') {
                (TokenOf::MinusEq, i + 1)
            } else {
                (TokenOf::Minus, i)
            },
        )
    } else if c == '*' {
        Some(if at(s, i, '=') { (TokenOf::StarEq, i + 1) } else { (TokenOf::Star, i) })
    } else if c == '&' {
        Some(if at(s, i, '&') { (TokenOf::AmpAmp, i + 1) } else { (TokenOf::Amp, i) })
    } else if c == '|' {
        Some(if at(s, i, '|') { (TokenOf::PipePipe, i + 1) } else { (TokenOf::Pipe, i) })
    } else if c == ':' {
        Some(if at(s, i, ':') { (TokenOf::ColonColon, i + 1) } else { (TokenOf::Colon, i) })
    } else if c == '.' {
        Some(
            if at(s, i, '.') {
                if at(s, i + 1, '=') {
                    (TokenOf::DotDotEq, i + 2)
                } else {
                    (TokenOf::DotDot, i + 1)
                }
            } else {
                (TokenOf::Dot, i)
            },
        )
    } else if c == '?' {
        Some((TokenOf::Question, i))
    } else if c == '$' && at(s, i, '{') {
        Some((TokenOf::DollarLBrace, i + 1))
    } else if c == '/' && !at(s, i, '/') && !at(s, i, '*') {
        Some(if at(s, i, '=') { (TokenOf::SlashEq, i + 1) } else { (TokenOf::Slash, i) })
    } else {
        None
    }
}

/// Lexes the token that follows position `i0` (after skipping whitespace).
pub open spec fn lex_step(s: Seq<char>, i0: int, fid: u32) -> LexStep {
    let st = scan(s, i0, Class::Whitespace);
    if st >= s.len() {
        simple_step(TokenOf::Eof, st, st, seq![])
    } else {
        let c = s[st];
        let i = st + 1;
        if c == '`' {
            let (text, j) = template_segment(s, i);
            if at(s, j, '$') && at(s, j + 1, '{') {
                LexStep { tok: TokenOf::TemplateLitStart(text), start: st, end: j, next: j + 2, errs: seq![] }
            } else {
                LexStep { tok: TokenOf::TemplateLitEnd(text), start: st, end: j, next: j, errs: seq![] }
            }
        } else if punct(s, c, i) is Some {
            let (t, n) = punct(s, c, i)->0;
            simple_step(t, st, n, seq![])
        } else if c == '/' && at(s, i, '/') {
            let j = scan(s, i, Class::NotNewline);
            simple_step(TokenOf::LineComment(s.subrange(st, j)), st, j, seq![])
        } else if c == '/' && at(s, i, '*') {
            let (j, closed) = block_comment_end(s, i + 1, 1);
            let errs = if closed {
                seq![]
            } else {
                seq![LexError::UnterminatedBlockComment { span: sp(s, st, j, fid) }]
            };
            simple_step(TokenOf::BlockComment(s.subrange(st, j)), st, j, errs)
        } else if c == '"' {
            let (v, j, errs) = lex_string_body(s, i, st, fid);
            simple_step(TokenOf::StrLit(v), st, j, errs)
        } else if c == '\'' {
            let (t, j, errs) = lex_char(s, st, fid);
            simple_step(t, st, j, errs)
        } else if is_ascii_digit_spec(c) {
            let (t, j, errs) = lex_number(s, st, fid);
            simple_step(t, st, j, errs)
        } else if unicode_alphabetic(c) || c == '_' {
            let j = scan(s, i, Class::IdentContinue);
            simple_step(word_token(s.subrange(st, j)), st, j, seq![])
        } else {
            simple_step(
                TokenOf::Error(c),
                st,
                i,
                seq![LexError::UnexpectedChar { ch: c, span: sp(s, st, i, fid) }],
            )
        }
    }
}

/// One token from position `i0`, inside the template interpolations `tm`
/// (the brace depth of each open `${`, innermost last).  A `}` at depth
/// zero closes the interpolation: the literal goes on as a
/// `TemplateLitMid` segment up to the next `${`, or ends as a
/// `TemplateLitEnd`.  Otherwise the token is the ordinary one, and braces
/// move the innermost depth.
pub open spec fn lex_step_in(s: Seq<char>, i0: int, fid: u32, tm: Seq<int>) -> (LexStep, Seq<int>) {
    let st = scan(s, i0, Class::Whitespace);
    if tm.len() > 0 && tm.last() == 0 && 0 <= st < s.len() && s[st] == '}' {
        let (text, j) = template_segment(s, st + 1);
        if at(s, j, '$') && at(s, j + 1, '{') {
            (LexStep { tok: TokenOf::TemplateLitMid(text), start: st, end: j, next: j + 2, errs: seq![] }, tm)
        } else {
            (LexStep { tok: TokenOf::TemplateLitEnd(text), start: st, end: j, next: j, errs: seq![] }, tm.drop_last())
        }
    } else {
        let step = lex_step(s, i0, fid);
        let tm2 = if step.tok is TemplateLitStart {
            tm.push(0)
        } else if tm.len() > 0 && (step.tok is LBrace || step.tok is DollarLBrace) {
            tm.update(tm.len() - 1, tm.last() + 1)
        } else if tm.len() > 0 && step.tok is RBrace {
            tm.update(tm.len() - 1, tm.last() - 1)
        } else {
            tm
        };
        (step, tm2)
    }
}

/// Tokens (with byte spans) and errors produced from position `i` on, inside
/// the interpolations `tm`, for at most `fuel` tokens; the list stops after
/// the first `Eof`.
pub open spec fn lex_from(s: Seq<char>, i: int, fid: u32, tm: Seq<int>, fuel: nat) -> (Seq<Spanned<TokenV>>, Seq<LexError>)
    decreases fuel,
{
    if fuel == 0 {
        (seq![], seq![])
    } else {
        let (st, tm2) = lex_step_in(s, i, fid, tm);
        let t = Spanned { node: st.tok, span: sp(s, st.start, st.end, fid) };
        if st.tok is Eof {
            (seq![t], st.errs)
        } else {
            let (ts, es) = lex_from(s, st.next, fid, tm2, (fuel - 1) as nat);
            (seq![t] + ts, st.errs + es)
        }
    }
}

/// The complete lexing of `s`: every step advances at least one character
/// until `Eof`, so `s.len() + 1` steps suffice.
pub open spec fn lex_tokens(s: Seq<char>, fid: u32) -> (Seq<Spanned<TokenV>>, Seq<LexError>) {
    lex_from(s, 0, fid, seq![], (s.len() + 1) as nat)
}

/// The brace depths of the open interpolations, as integers.
pub open spec fn depths(v: Seq<u64>) -> Seq<int> {
    v.map_values(|d: u64| d as int)
}

pub open spec fn tokens_view(v: Seq<Spanned<Token>>) -> Seq<Spanned<TokenV>> {
    v.map_values(|t: Spanned<Token>| Spanned { node: t.node@, span: t.span })
}

pub proof fn lemma_push_concat<A>(s: Seq<A>, x: A)
    ensures
        s.push(x) == s + seq![x],
{
    assert(s.push(x) =~= s + seq![x]);
}

// ── Bounds on where each kind of token ends ──────────────────────────────────

pub proof fn lemma_template_bounds(s: Seq<char>, i: int)
    requires
        0 <= i <= s.len(),
    ensures
        i <= template_segment(s, i).1 <= s.len(),
    decreases s.len() - i,
{
    if i < s.len() {
        if s[i] == '`' {
        } else if s[i] == '$' && at(s, i + 1, '{') {
        } else if s[i] == '\\' {
            if i + 1 < s.len() {
                lemma_template_bounds(s, i + 2);
            }
        } else {
            lemma_template_bounds(s, i + 1);
        }
    }
}

pub proof fn lemma_string_bounds(s: Seq<char>, i: int, lit: int, fid: u32)
    requires
        0 <= i <= s.len(),
    ensures
        i <= lex_string_body(s, i, lit, fid).1 <= s.len(),
    decreases s.len() - i,
{
    if i < s.len() && s[i] != '\n' && s[i] != '"' {
        if s[i] == '\\' {
            let j = lex_escape(s, i + 1, lit, fid).1;
            if j > i {
                lemma_string_bounds(s, j, lit, fid);
            }
        } else {
            lemma_string_bounds(s, i + 1, lit, fid);
        }
    }
}

pub proof fn lemma_punct_bounds(s: Seq<char>, c: char, i: int)
    requires
        0 <= i <= s.len(),
        punct(s, c, i) is Some,
    ensures
        i <= (punct(s, c, i)->0).1 <= s.len(),
{
}

pub proof fn lemma_number_bounds(s: Seq<char>, start: int, fid: u32)
    requires
        0 <= start < s.len(),
    ensures
        start < lex_number(s, start, fid).1 <= s.len(),
{
    let i = start + 1;
    if s[start] == '0' && (at(s, i, 'x') || at(s, i, 'X')) {
        lemma_scan_bounds(s, i + 1, Class::HexDigitOrUnderscore);
    } else if s[start] == '0' && (at(s, i, 'b') || at(s, i, 'B')) {
        lemma_scan_bounds(s, i + 1, Class::BinDigitOrUnderscore);
    } else {
        lemma_scan_bounds(s, i, Class::DecDigitOrUnderscore);
        let j = scan(s, i, Class::DecDigitOrUnderscore);
        if at(s, j, '.') && j + 1 < s.len() && is_ascii_digit_spec(s[j + 1]) {
            lemma_scan_bounds(s, j + 1, Class::DecDigitOrUnderscore);
            let k = scan(s, j + 1, Class::DecDigitOrUnderscore);
            if at(s, k, 'e') || at(s, k, 'E') {
                let k2 = if at(s, k + 1, '+') || at(s, k + 1, '-') {
                    k + 2
                } else {
                    k + 1
                };
                lemma_scan_bounds(s, k2, Class::AsciiDigit);
            }
        }
    }
}

// ── The lexer ────────────────────────────────────────────────────────────────

pub struct Lexer {
    src: Vec<char>,
    pos: usize,
    byte: usize,
    file_id: u32,
    pub errors: Vec<LexError>,
}

impl Lexer {
    /// The characters being lexed.
    pub closed spec fn chars(self) -> Seq<char> {
        self.src@
    }

    pub closed spec fn position(self) -> int {
        self.pos as int
    }

    pub closed spec fn file(self) -> u32 {
        self.file_id
    }

    /// Errors collected so far.
    pub closed spec fn errs(self) -> Seq<LexError> {
        self.errors@
    }

    pub closed spec fn wf(self) -> bool {
        &&& self.pos <= self.src.len()
        &&& self.byte == byte_offset(self.src@, self.pos as int)
        &&& 4 * self.src.len() < usize::MAX
    }

    /// A lexer at the start of `src`.  Byte offsets must fit in `usize`.
    pub fn new(src: &str, file_id: u32) -> (l: Lexer)
        requires
            4 * src@.len() < usize::MAX,
        ensures
            l.wf(),
            l.chars() == src@,
            l.position() == 0,
            l.file() == file_id,
            l.errs() == Seq::<LexError>::empty(),
    {
        let src = chars_of(src);
        Lexer { src, pos: 0, byte: 0, file_id, errors: Vec::new() }
    }

    /// Lexes the whole input: all tokens up to and including `Eof`, and the
    /// errors met on the way.
    pub fn tokenize(self) -> (r: (Vec<Spanned<Token>>, Vec<LexError>))
        requires
            self.wf(),
            self.position() == 0,
            self.errs() == Seq::<LexError>::empty(),
        ensures
            tokens_view(r.0@) == lex_tokens(self.chars(), self.file()).0,
            r.1@ == lex_tokens(self.chars(), self.file()).1,
    {
        let mut this = self;
        let ghost s = this.src@;
        let ghost fid = this.file_id;
        let ghost total = (s.len() + 1) as nat;
        let mut tokens: Vec<Spanned<Token>> = Vec::new();
        let mut tm: Vec<u64> = Vec::new();
        let ghost mut steps: nat = 0;
        assert(depths(tm@) =~= Seq::<int>::empty());
        loop
            invariant_except_break
                this.wf(),
                this.src@ == s,
                this.file_id == fid,
                total == s.len() + 1,
                steps <= this.pos,
                forall|k: int| 0 <= k < tm@.len() ==> (#[trigger] tm@[k]) <= this.pos,
                tokens_view(tokens@) + lex_from(s, this.pos as int, fid, depths(tm@), (total - steps) as nat).0
                    == lex_tokens(s, fid).0,
                this.errors@ + lex_from(s, this.pos as int, fid, depths(tm@), (total - steps) as nat).1
                    == lex_tokens(s, fid).1,
            ensures
                tokens_view(tokens@) == lex_tokens(s, fid).0,
                this.errors@ == lex_tokens(s, fid).1,
            decreases s.len() - this.pos,
        {
            let ghost old_pos = this.pos as int;
            let ghost old_errs = this.errors@;
            let ghost prev = tokens@;
            let ghost tm0 = depths(tm@);
            let tok = this.next_token_in(&mut tm);
            let is_eof = tok.node.is_eof();
            let ghost st = lex_step_in(s, old_pos, fid, tm0).0;
            let ghost rest = lex_from(s, st.next, fid, depths(tm@), (total - steps - 1) as nat);
            assert((total - steps) as nat > 0);
            tokens.push(tok);
            assert(tokens_view(tokens@) =~= tokens_view(prev).push(
                Spanned { node: st.tok, span: sp(s, st.start, st.end, fid) },
            ));
            if is_eof {
                assert(this.errors@ =~= old_errs + st.errs);
                break;
            }
            proof {
                assert(tokens_view(tokens@) + rest.0 =~= tokens_view(prev) + (seq![
                    Spanned { node: st.tok, span: sp(s, st.start, st.end, fid) },
                ] + rest.0));
                assert(this.errors@ + rest.1 =~= old_errs + (st.errs + rest.1));
                steps = steps + 1;
            }
        }
        let errors = this.errors;
        (tokens, errors)
    }

    /// The next token inside the open template interpolations `tm` (brace
    /// depths, innermost last), which it updates.
    fn next_token_in(&mut self, tm: &mut Vec<u64>) -> (t: Spanned<Token>)
        requires
            old(self).wf(),
            forall|k: int| 0 <= k < old(tm)@.len() ==> (#[trigger] old(tm)@[k]) <= old(self).pos,
        ensures
            final(self).wf(),
            final(self).same_input(*old(self)),
            forall|k: int| 0 <= k < final(tm)@.len() ==> (#[trigger] final(tm)@[k]) <= final(self).pos,
            ({
                let (st, tm2) = lex_step_in(old(self).src@, old(self).pos as int, old(self).file_id, depths(old(tm)@));
                &&& t.node@ == st.tok
                &&& t.span == sp(old(self).src@, st.start, st.end, old(self).file_id)
                &&& final(self).pos == st.next
                &&& final(self).errors@ == old(self).errors@ + st.errs
                &&& (st.tok is Eof || final(self).pos > old(self).pos)
                &&& depths(final(tm)@) == tm2
            }),
    {
        let ghost s = self.src@;
        let ghost p0 = self.pos as int;
        let ghost d0 = depths(tm@);
        self.eat_class(Class::Whitespace);
        proof {
            lemma_scan_bounds(s, p0, Class::Whitespace);
            lemma_scan_stops(s, p0, Class::Whitespace);
        }
        let n = tm.len();
        if n > 0 && tm[n - 1] == 0 && self.pos < self.src.len() && self.src[self.pos] == '}' {
            let start = self.pos;
            self.bump();
            let seg = self.read_template_segment();
            proof {
                lemma_template_bounds(s, start + 1);
            }
            let span = self.span_from(start);
            if self.peek_is('$') && self.peek2_is('{') {
                self.bump();
                self.bump();
                assert(self.errors@ =~= old(self).errors@ + Seq::<LexError>::empty());
                return Spanned::new(TokenOf::TemplateLitMid(seg), span);
            } else {
                let ghost before = tm@;
                tm.pop();
                assert(depths(tm@) =~= depths(before).drop_last());
                assert(self.errors@ =~= old(self).errors@ + Seq::<LexError>::empty());
                return Spanned::new(TokenOf::TemplateLitEnd(seg), span);
            }
        }
        let ghost p1 = self.pos as int;
        assert(scan(s, p1, Class::Whitespace) == p1);
        let ghost e1 = self.errors@;
        let t = self.next_token();
        proof {
            assert(lex_step(s, p1, self.file_id) == lex_step(s, p0, self.file_id));
        }
        let ghost before = tm@;
        let is_start = match &t.node {
            TokenOf::TemplateLitStart(_) => true,
            _ => false,
        };
        let opens = match &t.node {
            TokenOf::LBrace | TokenOf::DollarLBrace => true,
            _ => false,
        };
        let closes = match &t.node {
            TokenOf::RBrace => true,
            _ => false,
        };
        if is_start {
            tm.push(0);
            assert(depths(tm@) =~= d0.push(0));
        } else if n > 0 && opens {
            let top = tm[n - 1];
            tm.set(n - 1, top + 1);
            assert(depths(tm@) =~= d0.update(d0.len() - 1, d0.last() + 1));
        } else if n > 0 && closes {
            let top = tm[n - 1];
            proof {
                if top == 0 {
                    assert(d0.last() == 0);
                }
            }
            tm.set(n - 1, top - 1);
            assert(depths(tm@) =~= d0.update(d0.len() - 1, d0.last() - 1));
        }
        proof {
            assert forall|k: int| 0 <= k < tm@.len() implies (#[trigger] tm@[k]) <= self.pos by {
                if k < before.len() {
                    assert(before[k] <= p0);
                }
            }
        }
        t
    }

    // ── Internal helpers ─────────────────────────────────────────────────────

    /// Spec of the fields that scanning never changes.
    spec fn same_input(self, other: Lexer) -> bool {
        &&& self.src@ == other.src@
        &&& self.file_id == other.file_id
    }

    fn report(&mut self, e: LexError)
        ensures
            final(self).errors@ == old(self).errors@.push(e),
            final(self).src == old(self).src,
            final(self).pos == old(self).pos,
            final(self).byte == old(self).byte,
            final(self).file_id == old(self).file_id,
    {
        self.errors.push(e);
    }

    fn span(&self, start: usize) -> (r: Span)
        ensures
            r == (Span { start, end: self.byte, file_id: self.file_id }),
    {
        Span::new(start, self.byte, self.file_id)
    }

    fn peek_is(&self, c: char) -> (b: bool)
        requires
            self.wf(),
        ensures
            b == at(self.src@, self.pos as int, c),
    {
        self.pos < self.src.len() && self.src[self.pos] == c
    }

    fn peek2_is(&self, c: char) -> (b: bool)
        requires
            self.wf(),
        ensures
            b == at(self.src@, self.pos + 1, c),
    {
        self.pos + 1 < self.src.len() && self.src[self.pos + 1] == c
    }

    fn bump(&mut self)
        requires
            old(self).wf(),
            old(self).pos < old(self).src.len(),
        ensures
            final(self).wf(),
            final(self).same_input(*old(self)),
            final(self).pos == old(self).pos + 1,
            final(self).errors == old(self).errors,
    {
        let w = char_utf8_width(self.src[self.pos]);
        proof {
            lemma_byte_offset_bounds(self.src@, self.pos + 1);
        }
        self.byte = self.byte + w;
        self.pos = self.pos + 1;
    }

    fn in_class_exec(c: char, k: &Class) -> (b: bool)
        ensures
            b == in_class(*k, c),
    {
        match k {
            Class::Whitespace => is_whitespace(c),
            Class::DecDigitOrUnderscore => is_ascii_digit(c) || c == '_',
            Class::HexDigitOrUnderscore => is_ascii_hexdigit(c) || c == '_',
            Class::BinDigitOrUnderscore => c == '0' || c == '1' || c == '_',
            Class::AsciiDigit => is_ascii_digit(c),
            Class::IdentContinue => is_alphanumeric(c) || c == '_',
            Class::NotNewline => c != '\n',
        }
    }

    /// Advances over the maximal run of `k`-characters.
    fn eat_class(&mut self, k: Class)
        requires
            old(self).wf(),
        ensures
            final(self).wf(),
            final(self).same_input(*old(self)),
            final(self).pos == scan(old(self).src@, old(self).pos as int, k),
            old(self).pos <= final(self).pos,
            final(self).errors == old(self).errors,
    {
        let ghost start = self.pos as int;
        while self.pos < self.src.len() && Self::in_class_exec(self.src[self.pos], &k)
            invariant
                self.wf(),
                self.same_input(*old(self)),
                self.errors == old(self).errors,
                scan(self.src@, self.pos as int, k) == scan(self.src@, start, k),
                start <= self.pos,
            decreases self.src.len() - self.pos,
        {
            self.bump();
        }
    }

    // ── Numbers ──────────────────────────────────────────────────────────────

    /// Parses the digits among `src[from..to]` (skipping `_`) in `radix`.
    fn parse_digits(&self, from: usize, to: usize, radix: u32) -> (r: Option<i64>)
        requires
            from <= to <= self.src.len(),
            2 <= radix <= 16,
        ensures
            r == parse_i64_digits(strip_underscores(self.src@.subrange(from as int, to as int)), radix as nat),
    {
        let ghost s = self.src@;
        let mut val: u128 = 0;
        let mut over = false;
        let mut count: usize = 0;
        let mut i = from;
        while i < to
            invariant
                from <= i <= to <= s.len(),
                s == self.src@,
                2 <= radix <= 16,
                count == strip_underscores(s.subrange(from as int, i as int)).len(),
                count <= i - from,
                over <==> digits_value(strip_underscores(s.subrange(from as int, i as int)), radix as nat) > i64::MAX,
                !over ==> val == digits_value(strip_underscores(s.subrange(from as int, i as int)), radix as nat),
            decreases to - i,
        {
            let c = self.src[i];
            let ghost pre = strip_underscores(s.subrange(from as int, i as int));
            assert(s.subrange(from as int, i + 1).drop_last() =~= s.subrange(from as int, i as int));
            if c != '_' {
                let d: u128 = if '0' <= c && c <= '9' {
                    (c as u32 - '0' as u32) as u128
                } else if 'a' <= c && c <= 'f' {
                    (c as u32 - 'a' as u32 + 10) as u128
                } else if 'A' <= c && c <= 'F' {
                    (c as u32 - 'A' as u32 + 10) as u128
                } else {
                    0
                };
                assert(strip_underscores(s.subrange(from as int, i + 1)) == pre.push(c));
                assert(pre.push(c).drop_last() =~= pre);
                assert(digits_value(pre.push(c), radix as nat) == digits_value(pre, radix as nat)
                    * radix as nat + digit_value(c));
                if !over {
                    assert(val * radix as u128 + d <= 0x7fff_ffff_ffff_ffff * 16 + 15) by (nonlinear_arith)
                        requires
                            val <= 0x7fff_ffff_ffff_ffff,
                            radix <= 16,
                            d <= 15,
                    ;
                    val = val * (radix as u128) + d;
                    if val > 0x7fff_ffff_ffff_ffff {
                        over = true;
                    }
                } else {
                    assert(digits_value(pre, radix as nat) * radix as nat + digit_value(c)
                        >= digits_value(pre, radix as nat)) by (nonlinear_arith)
                        requires
                            radix >= 2,
                    ;
                }
                count = count + 1;
            } else {
                assert(strip_underscores(s.subrange(from as int, i + 1)) == pre);
            }
            i = i + 1;
        }
        if count == 0 || over {
            None
        } else {
            Some(val as i64)
        }
    }

    fn int_literal(&mut self, start: usize, digits_from: usize, radix: u32) -> (t: Token)
        requires
            old(self).wf(),
            start <= digits_from <= old(self).pos,
            2 <= radix <= 16,
        ensures
            final(self).wf(),
            final(self).same_input(*old(self)),
            final(self).pos == old(self).pos,
            ({
                let s = old(self).src@;
                let (tok, e) = int_literal(
                    s,
                    start as int,
                    old(self).pos as int,
                    strip_underscores(s.subrange(digits_from as int, old(self).pos as int)),
                    radix as nat,
                    old(self).file_id,
                );
                &&& t@ == tok
                &&& final(self).errors@ == old(self).errors@ + e
            }),
    {
        match self.parse_digits(digits_from, self.pos, radix) {
            Some(v) => TokenOf::IntLit(v),
            None => {
                proof {
                    lemma_byte_offset_mono(self.src@, start as int, self.pos as int);
                    lemma_byte_offset_bounds(self.src@, start as int);
                }
                let sp = self.span_from(start);
                self.errors.push(LexError::IntegerOverflow { span: sp });
                TokenOf::IntLit(0)
            },
        }
    }

    /// Span from character index `start` to the current position.
    fn span_from(&self, start: usize) -> (r: Span)
        requires
            self.wf(),
            start <= self.pos,
        ensures
            r == sp(self.src@, start as int, self.pos as int, self.file_id),
    {
        let b = self.byte_at(start);
        Span::new(b, self.byte, self.file_id)
    }

    /// Byte offset of character index `i` (at or before the current position).
    fn byte_at(&self, i: usize) -> (b: usize)
        requires
            self.wf(),
            i <= self.pos,
        ensures
            b == byte_offset(self.src@, i as int),
    {
        let mut b: usize = 0;
        let mut k: usize = 0;
        while k < i
            invariant
                k <= i <= self.pos <= self.src.len(),
                4 * self.src.len() < usize::MAX,
                b == byte_offset(self.src@, k as int),
            decreases i - k,
        {
            proof {
                lemma_byte_offset_bounds(self.src@, k + 1);
            }
            b = b + char_utf8_width(self.src[k]);
            k = k + 1;
        }
        b
    }

    fn number(&mut self, start: usize) -> (t: Token)
        requires
            old(self).wf(),
            start < old(self).src.len(),
            old(self).pos == start + 1,
            is_ascii_digit_spec(old(self).src@[start as int]),
        ensures
            old(self).pos <= final(self).pos,
            final(self).wf(),
            final(self).same_input(*old(self)),
            ({
                let (tok, j, e) = lex_number(old(self).src@, start as int, old(self).file_id);
                &&& t@ == tok
                &&& final(self).pos == j
                &&& final(self).errors@ == old(self).errors@ + e
            }),
    {
        let ghost s = self.src@;
        let first = self.src[start];
        if first == '0' && (self.peek_is('x') || self.peek_is('X')) {
            self.bump();
            self.eat_class(Class::HexDigitOrUnderscore);
            return self.int_literal(start, start + 2, 16);
        }
        if first == '0' && (self.peek_is('b') || self.peek_is('B')) {
            self.bump();
            self.eat_class(Class::BinDigitOrUnderscore);
            return self.int_literal(start, start + 2, 2);
        }
        self.eat_class(Class::DecDigitOrUnderscore);
        let is_float = self.peek_is('.') && self.pos + 1 < self.src.len() && is_ascii_digit(
            self.src[self.pos + 1],
        );
        if is_float {
            self.bump();
            self.eat_class(Class::DecDigitOrUnderscore);
            if self.peek_is('e') || self.peek_is('E') {
                self.bump();
                if self.peek_is('+') || self.peek_is('-') {
                    self.bump();
                }
                let k2 = self.pos;
                self.eat_class(Class::AsciiDigit);
                if self.pos == k2 {
                    let z = string_from_chars(&['0', '.', '0']);
                    assert(z@ =~= "0.0"@) by {
                        reveal_strlit("0.0");
                    }
                    return TokenOf::FloatLit(z);
                }
            }
            let text = self.stripped_text(start, self.pos);
            TokenOf::FloatLit(text)
        } else {
            self.int_literal(start, start, 10)
        }
    }

    /// `src[from..to]` without `_` characters.
    fn stripped_text(&self, from: usize, to: usize) -> (r: String)
        requires
            from <= to <= self.src.len(),
        ensures
            r@ == strip_underscores(self.src@.subrange(from as int, to as int)),
    {
        let ghost s = self.src@;
        let mut out = String::new();
        let mut i = from;
        while i < to
            invariant
                from <= i <= to <= s.len(),
                s == self.src@,
                out@ == strip_underscores(s.subrange(from as int, i as int)),
            decreases to - i,
        {
            assert(s.subrange(from as int, i + 1).drop_last() =~= s.subrange(from as int, i as int));
            let c = self.src[i];
            if c != '_' {
                push_char(&mut out, c);
            }
            i = i + 1;
        }
        out
    }

    /// `src[from..to]` as a string.
    fn text(&self, from: usize, to: usize) -> (r: String)
        requires
            from <= to <= self.src.len(),
        ensures
            r@ == self.src@.subrange(from as int, to as int),
    {
        let ghost s = self.src@;
        let mut out = String::new();
        let mut i = from;
        while i < to
            invariant
                from <= i <= to <= s.len(),
                s == self.src@,
                out@ == s.subrange(from as int, i as int),
            decreases to - i,
        {
            push_char(&mut out, self.src[i]);
            i = i + 1;
            assert(out@ =~= s.subrange(from as int, i as int));
        }
        out
    }

    /// Whether `src[from..to]` spells `lit`.
    fn word_is(&self, from: usize, to: usize, lit: &str) -> (b: bool)
        requires
            from <= to <= self.src.len(),
        ensures
            b == (self.src@.subrange(from as int, to as int) == lit@),
    {
        let l = chars_of(lit);
        if l.len() != to - from {
            return false;
        }
        let mut i: usize = 0;
        while i < l.len()
            invariant
                l@ == lit@,
                l.len() == to - from,
                from <= to <= self.src.len(),
                i <= l.len(),
                forall|k: int| 0 <= k < i ==> l@[k] == self.src@[from + k],
            decreases l.len() - i,
        {
            if l[i] != self.src[from + i] {
                assert(self.src@.subrange(from as int, to as int)[i as int] != l@[i as int]);
                return false;
            }
            i = i + 1;
        }
        assert(self.src@.subrange(from as int, to as int) =~= l@);
        true
    }

    /// The keyword or identifier spelled by `src[start..end]`.
    fn word(&self, start: usize, end: usize) -> (t: Token)
        requires
            start <= end <= self.src.len(),
        ensures
            t@ == word_token(self.src@.subrange(start as int, end as int)),
    {
        if self.word_is(start, end, "fn") {
            TokenOf::Fn
        } else if self.word_is(start, end, "let") {
            TokenOf::Let
        } else if self.word_is(start, end, "const") {
            TokenOf::Const
        } else if self.word_is(start, end, "if") {
            TokenOf::If
        } else if self.word_is(start, end, "else") {
            TokenOf::Else
        } else if self.word_is(start, end, "match") {
            TokenOf::Match
        } else if self.word_is(start, end, "return") {
            TokenOf::Return
        } else if self.word_is(start, end, "struct") {
            TokenOf::Struct
        } else if self.word_is(start, end, "enum") {
            TokenOf::Enum
        } else if self.word_is(start, end, "impl") {
            TokenOf::Impl
        } else if self.word_is(start, end, "trait") {
            TokenOf::Trait
        } else if self.word_is(start, end, "for") {
            TokenOf::For
        } else if self.word_is(start, end, "in") {
            TokenOf::In
        } else if self.word_is(start, end, "while") {
            TokenOf::While
        } else if self.word_is(start, end, "loop") {
            TokenOf::Loop
        } else if self.word_is(start, end, "break") {
            TokenOf::Break
        } else if self.word_is(start, end, "continue") {
            TokenOf::Continue
        } else if self.word_is(start, end, "import") {
            TokenOf::Import
        } else if self.word_is(start, end, "export") {
            TokenOf::Export
        } else if self.word_is(start, end, "mod") {
            TokenOf::Mod
        } else if self.word_is(start, end, "type") {
            TokenOf::Type
        } else if self.word_is(start, end, "as") {
            TokenOf::As
        } else if self.word_is(start, end, "async") {
            TokenOf::Async
        } else if self.word_is(start, end, "await") {
            TokenOf::Await
        } else if self.word_is(start, end, "macro") {
            TokenOf::Macro
        } else if self.word_is(start, end, "where") {
            TokenOf::Where
        } else if self.word_is(start, end, "this") {
            TokenOf::This
        } else if self.word_is(start, end, "true") {
            TokenOf::BoolLit(true)
        } else if self.word_is(start, end, "false") {
            TokenOf::BoolLit(false)
        } else if self.word_is(start, end, "i32") {
            TokenOf::KwI32
        } else if self.word_is(start, end, "i64") {
            TokenOf::KwI64
        } else if self.word_is(start, end, "f32") {
            TokenOf::KwF32
        } else if self.word_is(start, end, "f64") {
            TokenOf::KwF64
        } else if self.word_is(start, end, "boolean") {
            TokenOf::KwBoolean
        } else if self.word_is(start, end, "string") {
            TokenOf::KwString
        } else if self.word_is(start, end, "char") {
            TokenOf::KwChar
        } else if self.word_is(start, end, "void") {
            TokenOf::KwVoid
        } else if self.word_is(start, end, "number") {
            TokenOf::KwNumber
        } else {
            let w = self.text(start, end);
            TokenOf::Ident(w)
        }
    }

    fn ident_or_keyword(&mut self, start: usize) -> (t: Token)
        requires
            old(self).wf(),
            start < old(self).pos,
        ensures
            old(self).pos <= final(self).pos,
            final(self).wf(),
            final(self).same_input(*old(self)),
            final(self).errors == old(self).errors,
            final(self).pos == scan(old(self).src@, old(self).pos as int, Class::IdentContinue),
            t@ == word_token(old(self).src@.subrange(start as int, final(self).pos as int)),
    {
        self.eat_class(Class::IdentContinue);
        proof {
            lemma_scan_bounds(old(self).src@, old(self).pos as int, Class::IdentContinue);
        }
        self.word(start, self.pos)
    }

    // ── Escapes and literals ─────────────────────────────────────────────────

    /// The escape whose backslash was just consumed.
    #[verifier::spinoff_prover]
    #[verifier::rlimit(40)]
    fn parse_escape(&mut self, lit_start: usize) -> (r: Option<char>)
        requires
            old(self).wf(),
            lit_start < old(self).pos,
            old(self).src@[old(self).pos - 1] == '\\',
        ensures
            final(self).wf(),
            final(self).same_input(*old(self)),
            ({
                let (e, j, errs) = lex_escape(old(self).src@, old(self).pos as int, lit_start as int, old(self).file_id);
                &&& r == e
                &&& final(self).pos == j
                &&& final(self).errors@ == old(self).errors@ + errs
            }),
    {
        if self.pos >= self.src.len() {
            let sp = self.span_from(lit_start);
            self.errors.push(LexError::UnterminatedString { span: sp });
            assert(self.errors@ =~= old(self).errors@ + seq![LexError::UnterminatedString { span: sp }]);
            return None;
        }
        let c = self.src[self.pos];
        assert(byte_offset(self.src@, self.pos as int) == byte_offset(self.src@, self.pos - 1) + 1);
        let esc_start = self.byte - 1;
        self.bump();
        match Self::simple_escape_exec(c) {
            Some(e) => {
                assert(self.errors@ =~= old(self).errors@ + Seq::<LexError>::empty());
                Some(e)
            },
            None => {
                let sp = Span::new(esc_start, self.byte, self.file_id);
                let err = LexError::InvalidEscape { ch: c, span: sp };
                self.report(err);
                proof {
                    lemma_push_concat(old(self).errors@, err);
                }
                None
            },
        }
    }

    fn simple_escape_exec(c: char) -> (r: Option<char>)
        ensures
            r == simple_escape(c),
    {
        if c == 'n' {
            Some('\n')
        } else if c == 't' {
            Some('\t')
        } else if c == 'r' {
            Some('\r')
        } else if c == '\\' {
            Some('\\')
        } else if c == '"' {
            Some('"')
        } else if c == '\'' {
            Some('\'')
        } else if c == '`' {
            Some('`')
        } else if c == '0' {
            Some('\0')
        } else {
            None
        }
    }

    /// A string literal whose opening quote is at `start`.
    fn string_literal(&mut self, start: usize) -> (t: Token)
        requires
            old(self).wf(),
            old(self).pos == start + 1,
        ensures
            old(self).pos <= final(self).pos,
            final(self).wf(),
            final(self).same_input(*old(self)),
            ({
                let (v, j, errs) = lex_string_body(old(self).src@, old(self).pos as int, start as int, old(self).file_id);
                &&& t@ == TokenOf::StrLit(v)
                &&& final(self).pos == j
                &&& final(self).errors@ == old(self).errors@ + errs
            }),
    {
        let ghost s = self.src@;
        let ghost fid = self.file_id;
        let ghost whole = lex_string_body(s, self.pos as int, start as int, fid);
        let ghost e0 = self.errors@;
        let mut value = String::new();
        loop
            invariant_except_break
                self.wf(),
                self.same_input(*old(self)),
                s == self.src@,
                fid == self.file_id,
                start < self.pos,
                value@ + lex_string_body(s, self.pos as int, start as int, fid).0 == whole.0,
                lex_string_body(s, self.pos as int, start as int, fid).1 == whole.1,
                self.errors@ + lex_string_body(s, self.pos as int, start as int, fid).2 == e0 + whole.2,
            ensures
                self.wf(),
                self.same_input(*old(self)),
                value@ == whole.0,
                self.pos == whole.1,
                start < self.pos,
                self.errors@ == e0 + whole.2,
            decreases s.len() - self.pos,
        {
            let ghost here = lex_string_body(s, self.pos as int, start as int, fid);
            let ghost e1 = self.errors@;
            if self.pos >= self.src.len() {
                let sp = self.span_from(start);
                self.errors.push(LexError::UnterminatedString { span: sp });
                assert(value@ =~= whole.0);
                assert(self.errors@ =~= e0 + whole.2);
                break;
            }
            let c = self.src[self.pos];
            self.bump();
            if c == '\n' {
                let sp = self.span_from(start);
                self.errors.push(LexError::UnterminatedString { span: sp });
                assert(value@ =~= whole.0);
                assert(self.errors@ =~= e0 + whole.2);
                break;
            } else if c == '"' {
                assert(value@ =~= whole.0);
                assert(self.errors@ =~= e0 + whole.2);
                break;
            } else if c == '\\' {
                let ghost vbefore = value@;
                let ghost esc = lex_escape(s, self.pos as int, start as int, fid);
                let e = self.parse_escape(start);
                let ghost after = lex_string_body(s, self.pos as int, start as int, fid);
                match e {
                    Some(ch) => {
                        push_char(&mut value, ch);
                        assert(vbefore + (seq![ch] + after.0) =~= value@ + after.0);
                    },
                    None => {},
                }
                assert((e1 + esc.2) + after.2 =~= e1 + (esc.2 + after.2));
            } else {
                let ghost vbefore = value@;
                push_char(&mut value, c);
                assert(vbefore + (seq![c] + lex_string_body(s, self.pos as int, start as int, fid).0) =~= value@ + lex_string_body(s, self.pos as int, start as int, fid).0);
            }
        }
        TokenOf::StrLit(value)
    }

    /// A character literal whose opening quote is at `start`.
    fn char_literal(&mut self, start: usize) -> (t: Token)
        requires
            old(self).wf(),
            old(self).pos == start + 1,
        ensures
            old(self).pos <= final(self).pos,
            final(self).wf(),
            final(self).same_input(*old(self)),
            ({
                let (tok, j, errs) = lex_char(old(self).src@, start as int, old(self).file_id);
                &&& t@ == tok
                &&& final(self).pos == j
                &&& final(self).errors@ == old(self).errors@ + errs
            }),
    {
        if self.pos >= self.src.len() {
            let sp = self.span_from(start);
            self.errors.push(LexError::UnterminatedString { span: sp });
            return TokenOf::Error('\'');
        }
        let c = self.src[self.pos];
        self.bump();
        let ch = if c == '\\' {
            match self.parse_escape(start) {
                Some(e) => e,
                None => {
                    return TokenOf::Error('\'');
                },
            }
        } else {
            c
        };
        if self.peek_is('\'') {
            self.bump();
        } else {
            let sp = self.span_from(start);
            self.errors.push(LexError::UnterminatedString { span: sp });
        }
        TokenOf::CharLit(ch)
    }

    // ── Comments ─────────────────────────────────────────────────────────────

    /// A `//` comment; the first slash is at `start`, the second at `pos`.
    fn line_comment(&mut self, start: usize) -> (t: Token)
        requires
            old(self).wf(),
            start < old(self).pos,
        ensures
            old(self).pos <= final(self).pos,
            final(self).wf(),
            final(self).same_input(*old(self)),
            final(self).errors == old(self).errors,
            final(self).pos == scan(old(self).src@, old(self).pos as int, Class::NotNewline),
            t@ == TokenOf::LineComment(old(self).src@.subrange(start as int, final(self).pos as int)),
    {
        self.eat_class(Class::NotNewline);
        proof {
            lemma_scan_bounds(old(self).src@, old(self).pos as int, Class::NotNewline);
        }
        let text = self.text(start, self.pos);
        TokenOf::LineComment(text)
    }

    /// A `/* */` comment (nesting allowed); `/` at `start`, `*` at `pos`.
    fn block_comment(&mut self, start: usize) -> (t: Token)
        requires
            old(self).wf(),
            old(self).pos == start + 1,
            at(old(self).src@, start + 1, '*'),
        ensures
            old(self).pos <= final(self).pos,
            final(self).wf(),
            final(self).same_input(*old(self)),
            ({
                let (j, closed) = block_comment_end(old(self).src@, start + 2, 1);
                &&& final(self).pos == j
                &&& t@ == TokenOf::BlockComment(old(self).src@.subrange(start as int, j))
                &&& final(self).errors@ == old(self).errors@ + (if closed {
                    Seq::<LexError>::empty()
                } else {
                    seq![LexError::UnterminatedBlockComment { span: sp(old(self).src@, start as int, j, old(self).file_id) }]
                })
            }),
    {
        let ghost s = self.src@;
        let ghost whole = block_comment_end(s, start + 2, 1);
        self.bump();
        let mut depth: usize = 1;
        let mut closed = false;
        loop
            invariant_except_break
                self.wf(),
                self.same_input(*old(self)),
                self.errors == old(self).errors,
                s == self.src@,
                !closed,
                start + 2 <= self.pos,
                1 <= depth <= self.pos,
                block_comment_end(s, self.pos as int, depth as nat) == whole,
            ensures
                self.wf(),
                self.same_input(*old(self)),
                self.errors == old(self).errors,
                start + 2 <= self.pos,
                self.pos == whole.0,
                closed == whole.1,
            decreases s.len() - self.pos,
        {
            if self.pos >= self.src.len() {
                break;
            }
            let c = self.src[self.pos];
            self.bump();
            if c == '*' && self.peek_is('/') {
                self.bump();
                if depth <= 1 {
                    closed = true;
                    break;
                }
                depth = depth - 1;
            } else if c == '/' && self.peek_is('*') {
                self.bump();
                depth = depth + 1;
            }
        }
        if !closed {
            let sp = self.span_from(start);
            self.errors.push(LexError::UnterminatedBlockComment { span: sp });
        }
        let text = self.text(start, self.pos);
        TokenOf::BlockComment(text)
    }

    // ── Template literals ────────────────────────────────────────────────────

    fn read_template_segment(&mut self) -> (r: String)
        requires
            old(self).wf(),
        ensures
            final(self).wf(),
            final(self).same_input(*old(self)),
            final(self).errors == old(self).errors,
            r@ == template_segment(old(self).src@, old(self).pos as int).0,
            final(self).pos == template_segment(old(self).src@, old(self).pos as int).1,
    {
        let ghost s = self.src@;
        let ghost whole = template_segment(s, self.pos as int);
        let mut buf = String::new();
        loop
            invariant_except_break
                self.wf(),
                self.same_input(*old(self)),
                self.errors == old(self).errors,
                s == self.src@,
                buf@ + template_segment(s, self.pos as int).0 == whole.0,
                template_segment(s, self.pos as int).1 == whole.1,
            ensures
                self.wf(),
                self.same_input(*old(self)),
                self.errors == old(self).errors,
                buf@ == whole.0,
                self.pos == whole.1,
            decreases s.len() - self.pos,
        {
            let ghost b0 = buf@;
            if self.pos >= self.src.len() {
                assert(buf@ =~= whole.0);
                break;
            }
            let c = self.src[self.pos];
            if c == '`' {
                self.bump();
                assert(buf@ =~= whole.0);
                break;
            }
            if c == '$' && self.peek2_is('{') {
                assert(buf@ =~= whole.0);
                break;
            }
            if c == '\\' {
                self.bump();
                if self.pos >= self.src.len() {
                    assert(buf@ =~= whole.0);
                    break;
                }
                let d = self.src[self.pos];
                self.bump();
                if d == '`' {
                    push_char(&mut buf, '`');
                } else if d == '$' {
                    push_char(&mut buf, '$');
                } else if d == 'n' {
                    push_char(&mut buf, '\n');
                } else if d == 't' {
                    push_char(&mut buf, '\t');
                } else if d == '\\' {
                    push_char(&mut buf, '\\');
                } else {
                    push_char(&mut buf, '\\');
                    push_char(&mut buf, d);
                }
                let ghost rest = template_segment(s, self.pos as int).0;
                assert(buf@ + rest =~= b0 + ((buf@.subrange(b0.len() as int, buf@.len() as int)) + rest));
            } else {
                self.bump();
                push_char(&mut buf, c);
                let ghost rest = template_segment(s, self.pos as int).0;
                assert(buf@ + rest =~= b0 + (seq![c] + rest));
            }
        }
        buf
    }

    /// A template literal whose backtick is at `start`.
    fn template_literal(&mut self, start: usize) -> (t: Spanned<Token>)
        requires
            old(self).wf(),
            old(self).pos == start + 1,
            old(self).src@[start as int] == '`',
        ensures
            old(self).pos <= final(self).pos,
            final(self).wf(),
            final(self).same_input(*old(self)),
            final(self).errors == old(self).errors,
            ({
                let st = lex_step(old(self).src@, start as int, old(self).file_id);
                &&& t.node@ == st.tok
                &&& t.span == sp(old(self).src@, start as int, st.end, old(self).file_id)
                &&& final(self).pos == st.next
            }),
    {
        let seg = self.read_template_segment();
        proof {
            lemma_template_bounds(old(self).src@, start + 1);
        }
        let span = self.span_from(start);
        if self.peek_is('$') && self.peek2_is('{') {
            self.bump();
            self.bump();
            Spanned::new(TokenOf::TemplateLitStart(seg), span)
        } else {
            Spanned::new(TokenOf::TemplateLitEnd(seg), span)
        }
    }

    // ── Punctuation ──────────────────────────────────────────────────────────

    /// Advances over the rest of the punctuation token starting with `c`
    /// (already consumed) when `c` starts one.
    fn punct(&mut self, c: char) -> (r: Option<Token>)
        requires
            old(self).wf(),
        ensures
            old(self).pos <= final(self).pos,
            final(self).wf(),
            final(self).same_input(*old(self)),
            final(self).errors == old(self).errors,
            match punct(old(self).src@, c, old(self).pos as int) {
                Some((t, n)) => r.is_some() && r->0@ == t && final(self).pos == n,
                None => r.is_none() && final(self).pos == old(self).pos,
            },
    {
        if c == '(' {
            Some(TokenOf::LParen)
        } else if c == ')' {
            Some(TokenOf::RParen)
        } else if c == '{' {
            Some(TokenOf::LBrace)
        } else if c == '}' {
            Some(TokenOf::RBrace)
        } else if c == '[' {
            Some(TokenOf::LBracket)
        } else if c == ']' {
            Some(TokenOf::RBracket)
        } else if c == ';' {
            Some(TokenOf::Semi)
        } else if c == ',' {
            Some(TokenOf::Comma)
        } else if c == '~' {
            Some(TokenOf::Tilde)
        } else if c == '^' {
            Some(TokenOf::Caret)
        } else if c == '@' {
            Some(TokenOf::At)
        } else if c == '#' {
            Some(TokenOf::Hash)
        } else if c == '+' {
            Some(self.eat_eq(TokenOf::PlusEq, TokenOf::Plus))
        } else if c == '%' {
            Some(self.eat_eq(TokenOf::PercentEq, TokenOf::Percent))
        } else if c == '!' {
            if self.peek_is('=') {
                self.bump();
                if self.peek_is('=') {
                    self.bump();
                    Some(TokenOf::BangEq)
                } else {
                    Some(TokenOf::BangEqLoose)
                }
            } else {
                Some(TokenOf::Bang)
            }
        } else if c == '=' {
            if self.peek_is('=') {
                self.bump();
                if self.peek_is('=') {
                    self.bump();
                    Some(TokenOf::EqEq)
                } else {
                    Some(TokenOf::EqEqLoose)
                }
            } else if self.peek_is('>') {
                self.bump();
                Some(TokenOf::FatArrow)
            } else {
                Some(TokenOf::Eq)
            }
        } else if c == '<' {
            if self.peek_is('=') {
                self.bump();
                Some(TokenOf::LtEq)
            } else if self.peek_is('<') {
                self.bump();
                Some(TokenOf::LtLt)
            } else {
                Some(TokenOf::Lt)
            }
        } else if c == '>' {
            if self.peek_is('=') {
                self.bump();
                Some(TokenOf::GtEq)
            } else if self.peek_is('>') {
                self.bump();
                Some(TokenOf::GtGt)
            } else {
                Some(TokenOf::Gt)
            }
        } else if c == '-' {
            if self.peek_is('>') {
                self.bump();
                Some(TokenOf::Arrow)
            } else if self.peek_is('=') {
                self.bump();
                Some(TokenOf::MinusEq)
            } else {
                Some(TokenOf::Minus)
            }
        } else if c == '*' {
            Some(self.eat_eq(TokenOf::StarEq, TokenOf::Star))
        } else if c == '&' {
            Some(self.eat_ch('&', TokenOf::AmpAmp, TokenOf::Amp))
        } else if c == '|' {
            Some(self.eat_ch('|', TokenOf::PipePipe, TokenOf::Pipe))
        } else if c == ':' {
            Some(self.eat_ch(':', TokenOf::ColonColon, TokenOf::Colon))
        } else if c == '.' {
            if self.peek_is('.') {
                self.bump();
                if self.peek_is('=') {
                    self.bump();
                    Some(TokenOf::DotDotEq)
                } else {
                    Some(TokenOf::DotDot)
                }
            } else {
                Some(TokenOf::Dot)
            }
        } else if c == '?' {
            Some(TokenOf::Question)
        } else if c == '$' && self.peek_is('{') {
            self.bump();
            Some(TokenOf::DollarLBrace)
        } else if c == '/' && !self.peek_is('/') && !self.peek_is('*') {
            Some(self.eat_eq(TokenOf::SlashEq, TokenOf::Slash))
        } else {
            None
        }
    }

    fn eat_eq(&mut self, with_eq: Token, without: Token) -> (t: Token)
        requires
            old(self).wf(),
        ensures
            final(self).wf(),
            final(self).same_input(*old(self)),
            final(self).errors == old(self).errors,
            if at(old(self).src@, old(self).pos as int, '=') {
                t == with_eq && final(self).pos == old(self).pos + 1
            } else {
                t == without && final(self).pos == old(self).pos
            },
    {
        self.eat_ch('=', with_eq, without)
    }

    fn eat_ch(&mut self, expected: char, with: Token, without: Token) -> (t: Token)
        requires
            old(self).wf(),
        ensures
            final(self).wf(),
            final(self).same_input(*old(self)),
            final(self).errors == old(self).errors,
            if at(old(self).src@, old(self).pos as int, expected) {
                t == with && final(self).pos == old(self).pos + 1
            } else {
                t == without && final(self).pos == old(self).pos
            },
    {
        if self.peek_is(expected) {
            self.bump();
            with
        } else {
            without
        }
    }

    // ── Token production ─────────────────────────────────────────────────────

    /// Lexes the next token (skipping whitespace first).
    fn next_token(&mut self) -> (t: Spanned<Token>)
        requires
            old(self).wf(),
        ensures
            final(self).wf(),
            final(self).same_input(*old(self)),
            ({
                let st = lex_step(old(self).src@, old(self).pos as int, old(self).file_id);
                &&& t.node@ == st.tok
                &&& t.span == sp(old(self).src@, st.start, st.end, old(self).file_id)
                &&& final(self).pos == st.next
                &&& final(self).errors@ == old(self).errors@ + st.errs
                &&& (st.tok is Eof || final(self).pos > old(self).pos)
            }),
    {
        let ghost s = self.src@;
        self.eat_class(Class::Whitespace);
        proof {
            lemma_scan_bounds(s, old(self).pos as int, Class::Whitespace);
        }
        let start = self.pos;
        if self.pos >= self.src.len() {
            let sp = self.span_from(start);
            assert(self.errors@ =~= old(self).errors@ + Seq::<LexError>::empty());
            return Spanned::new(TokenOf::Eof, sp);
        }
        let c = self.src[self.pos];
        self.bump();
        if c == '`' {
            let t = self.template_literal(start);
            assert(self.errors@ =~= old(self).errors@ + Seq::<LexError>::empty());
            return t;
        }
        let ghost e0 = self.errors@;
        let tok = match self.punct(c) {
            Some(t) => {
                proof {
                    lemma_punct_bounds(s, c, start + 1);
                }
                assert(self.errors@ =~= e0 + Seq::<LexError>::empty());
                t
            },
            None => {
                if c == '/' && self.peek_is('/') {
                    let t = self.line_comment(start);
                    assert(self.errors@ =~= e0 + Seq::<LexError>::empty());
                    t
                } else if c == '/' && self.peek_is('*') {
                    self.block_comment(start)
                } else if c == '"' {
                    let t = self.string_literal(start);
                    proof {
                        lemma_string_bounds(s, start + 1, start as int, self.file_id);
                    }
                    t
                } else if c == '\'' {
                    let t = self.char_literal(start);
                    t
                } else if is_ascii_digit(c) {
                    let t = self.number(start);
                    proof {
                        lemma_number_bounds(s, start as int, self.file_id);
                    }
                    t
                } else if is_alphabetic(c) || c == '_' {
                    let t = self.ident_or_keyword(start);
                    assert(self.errors@ =~= e0 + Seq::<LexError>::empty());
                    t
                } else {
                    let sp = self.span_from(start);
                    self.errors.push(LexError::UnexpectedChar { ch: c, span: sp });
                    TokenOf::Error(c)
                }
            },
        };
        let sp = self.span_from(start);
        Spanned::new(tok, sp)
    }
}

} // verus!
