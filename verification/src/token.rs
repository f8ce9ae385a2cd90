//! Tokens, source spans and lexer errors.

use vstd::prelude::*;
use crate::text::{push_char, push_str, u64_to_string, nat_digits, int_str, i64_to_string};

verus! {
/// What `{:?}` renders for a string (quoted, with escapes).
pub uninterp spec fn str_debug_text(s: Seq<char>) -> Seq<char>;

/// What `{:?}` renders for a character (quoted, with escapes).
pub uninterp spec fn char_debug_text(c: char) -> Seq<char>;

/// Wraps `<str as Debug>::fmt`: the quoted, escaped rendering of `s`, named
/// `str_debug_text(s@)`.
#[verifier::external_body]
pub fn str_debug(s: &str) -> (r: String)
    ensures
        r@ == str_debug_text(s@),
{
    format!("{:?}", s)
}

/// Wraps `<char as Debug>::fmt`: the quoted, escaped rendering of `c`, named
/// `char_debug_text(c)`.
#[verifier::external_body]
pub fn char_debug(c: char) -> (r: String)
    ensures
        r@ == char_debug_text(c),
{
    format!("{:?}", c)
}


/// A half-open byte range `start..end` in source file `file_id`.
#[derive(Debug, Clone, Copy, PartialEq, Eq, Hash, Structural)]
pub struct Span {
    pub start: usize,
    pub end: usize,
    pub file_id: u32,
}

impl Span {
    pub fn new(start: usize, end: usize, file_id: u32) -> (s: Span)
        ensures
            s == (Span { start, end, file_id }),
    {
        Span { start, end, file_id }
    }

    /// The smallest span covering both `self` and `other` (file of `self`).
    pub open spec fn merged(self, other: Span) -> Span {
        Span {
            start: if self.start <= other.start { self.start } else { other.start },
            end: if self.end >= other.end { self.end } else { other.end },
            file_id: self.file_id,
        }
    }

    pub fn merge(&self, other: Span) -> (s: Span)
        ensures
            s == self.merged(other),
    {
        Span {
            start: if self.start <= other.start { self.start } else { other.start },
            end: if self.end >= other.end { self.end } else { other.end },
            file_id: self.file_id,
        }
    }
}

/// A value together with the span it came from.
#[derive(Debug, Clone, PartialEq)]
pub struct Spanned<T> {
    pub node: T,
    pub span: Span,
}

impl<T> Spanned<T> {
    pub fn new(node: T, span: Span) -> (s: Spanned<T>)
        ensures
            s.node == node,
            s.span == span,
    {
        Spanned { node, span }
    }
}

/// Every token the lexer can produce; `S` is the text type of the payloads
/// (`String` in executable code, `Seq<char>` in specifications).
#[derive(Debug, Clone, PartialEq)]
pub enum TokenOf<S> {
    /// Integer literal, e.g. `42`, `0xFF`, `0b1010`, `1_000_000`.
    IntLit(i64),
    /// Floating-point literal, kept as its source text without `_` separators
    /// (an exponent marker with no digits after it is read as `0.0`).
    FloatLit(S),
    /// Boolean literal.
    BoolLit(bool),
    /// Plain string literal (double-quoted, contents already un-escaped).
    StrLit(S),
    /// Template literal text before the first `${`.
    TemplateLitStart(S),
    /// Template literal text between interpolations.
    TemplateLitMid(S),
    /// Template literal text after the last interpolation (or the whole literal).
    TemplateLitEnd(S),
    /// Character literal, e.g. `'a'`.
    CharLit(char),
    /// Identifier.
    Ident(S),
    Fn,
    Let,
    Const,
    If,
    Else,
    Match,
    Return,
    Struct,
    Enum,
    Impl,
    Trait,
    For,
    In,
    While,
    Loop,
    Break,
    Continue,
    Import,
    Export,
    Mod,
    Type,
    As,
    Async,
    Await,
    Macro,
    Where,
    This,
    KwI32,
    KwI64,
    KwF32,
    KwF64,
    KwBoolean,
    KwString,
    KwChar,
    KwVoid,
    KwNumber,
    Plus,
    Minus,
    Star,
    Slash,
    Percent,
    Amp,
    Pipe,
    Caret,
    Tilde,
    Bang,
    Eq,
    EqEq,
    EqEqLoose,
    BangEq,
    BangEqLoose,
    Lt,
    LtEq,
    Gt,
    GtEq,
    LtLt,
    GtGt,
    PlusEq,
    MinusEq,
    StarEq,
    SlashEq,
    PercentEq,
    AmpAmp,
    PipePipe,
    Arrow,
    FatArrow,
    DotDot,
    DotDotEq,
    Question,
    At,
    LParen,
    RParen,
    LBrace,
    RBrace,
    LBracket,
    RBracket,
    DollarLBrace,
    Semi,
    Colon,
    ColonColon,
    Comma,
    Dot,
    Hash,
    Backtick,
    /// `// ...` comment (trivia).
    LineComment(S),
    /// `/* ... */` comment, nesting allowed (trivia).
    BlockComment(S),
    /// An unrecognised character.
    Error(char),
    /// End of input.
    Eof,
}

impl View for TokenOf<String> {
    type V = TokenOf<Seq<char>>;

    open spec fn view(&self) -> TokenOf<Seq<char>> {
        match self {
            TokenOf::IntLit(v) => TokenOf::IntLit(*v),
            TokenOf::FloatLit(s) => TokenOf::FloatLit(s@),
            TokenOf::BoolLit(v) => TokenOf::BoolLit(*v),
            TokenOf::StrLit(s) => TokenOf::StrLit(s@),
            TokenOf::TemplateLitStart(s) => TokenOf::TemplateLitStart(s@),
            TokenOf::TemplateLitMid(s) => TokenOf::TemplateLitMid(s@),
            TokenOf::TemplateLitEnd(s) => TokenOf::TemplateLitEnd(s@),
            TokenOf::CharLit(v) => TokenOf::CharLit(*v),
            TokenOf::Ident(s) => TokenOf::Ident(s@),
            TokenOf::LineComment(s) => TokenOf::LineComment(s@),
            TokenOf::BlockComment(s) => TokenOf::BlockComment(s@),
            TokenOf::Error(v) => TokenOf::Error(*v),
            TokenOf::Fn => TokenOf::Fn,
            TokenOf::Let => TokenOf::Let,
            TokenOf::Const => TokenOf::Const,
            TokenOf::If => TokenOf::If,
            TokenOf::Else => TokenOf::Else,
            TokenOf::Match => TokenOf::Match,
            TokenOf::Return => TokenOf::Return,
            TokenOf::Struct => TokenOf::Struct,
            TokenOf::Enum => TokenOf::Enum,
            TokenOf::Impl => TokenOf::Impl,
            TokenOf::Trait => TokenOf::Trait,
            TokenOf::For => TokenOf::For,
            TokenOf::In => TokenOf::In,
            TokenOf::While => TokenOf::While,
            TokenOf::Loop => TokenOf::Loop,
            TokenOf::Break => TokenOf::Break,
            TokenOf::Continue => TokenOf::Continue,
            TokenOf::Import => TokenOf::Import,
            TokenOf::Export => TokenOf::Export,
            TokenOf::Mod => TokenOf::Mod,
            TokenOf::Type => TokenOf::Type,
            TokenOf::As => TokenOf::As,
            TokenOf::Async => TokenOf::Async,
            TokenOf::Await => TokenOf::Await,
            TokenOf::Macro => TokenOf::Macro,
            TokenOf::Where => TokenOf::Where,
            TokenOf::This => TokenOf::This,
            TokenOf::KwI32 => TokenOf::KwI32,
            TokenOf::KwI64 => TokenOf::KwI64,
            TokenOf::KwF32 => TokenOf::KwF32,
            TokenOf::KwF64 => TokenOf::KwF64,
            TokenOf::KwBoolean => TokenOf::KwBoolean,
            TokenOf::KwString => TokenOf::KwString,
            TokenOf::KwChar => TokenOf::KwChar,
            TokenOf::KwVoid => TokenOf::KwVoid,
            TokenOf::KwNumber => TokenOf::KwNumber,
            TokenOf::Plus => TokenOf::Plus,
            TokenOf::Minus => TokenOf::Minus,
            TokenOf::Star => TokenOf::Star,
            TokenOf::Slash => TokenOf::Slash,
            TokenOf::Percent => TokenOf::Percent,
            TokenOf::Amp => TokenOf::Amp,
            TokenOf::Pipe => TokenOf::Pipe,
            TokenOf::Caret => TokenOf::Caret,
            TokenOf::Tilde => TokenOf::Tilde,
            TokenOf::Bang => TokenOf::Bang,
            TokenOf::Eq => TokenOf::Eq,
            TokenOf::EqEq => TokenOf::EqEq,
            TokenOf::EqEqLoose => TokenOf::EqEqLoose,
            TokenOf::BangEq => TokenOf::BangEq,
            TokenOf::BangEqLoose => TokenOf::BangEqLoose,
            TokenOf::Lt => TokenOf::Lt,
            TokenOf::LtEq => TokenOf::LtEq,
            TokenOf::Gt => TokenOf::Gt,
            TokenOf::GtEq => TokenOf::GtEq,
            TokenOf::LtLt => TokenOf::LtLt,
            TokenOf::GtGt => TokenOf::GtGt,
            TokenOf::PlusEq => TokenOf::PlusEq,
            TokenOf::MinusEq => TokenOf::MinusEq,
            TokenOf::StarEq => TokenOf::StarEq,
            TokenOf::SlashEq => TokenOf::SlashEq,
            TokenOf::PercentEq => TokenOf::PercentEq,
            TokenOf::AmpAmp => TokenOf::AmpAmp,
            TokenOf::PipePipe => TokenOf::PipePipe,
            TokenOf::Arrow => TokenOf::Arrow,
            TokenOf::FatArrow => TokenOf::FatArrow,
            TokenOf::DotDot => TokenOf::DotDot,
            TokenOf::DotDotEq => TokenOf::DotDotEq,
            TokenOf::Question => TokenOf::Question,
            TokenOf::At => TokenOf::At,
            TokenOf::LParen => TokenOf::LParen,
            TokenOf::RParen => TokenOf::RParen,
            TokenOf::LBrace => TokenOf::LBrace,
            TokenOf::RBrace => TokenOf::RBrace,
            TokenOf::LBracket => TokenOf::LBracket,
            TokenOf::RBracket => TokenOf::RBracket,
            TokenOf::DollarLBrace => TokenOf::DollarLBrace,
            TokenOf::Semi => TokenOf::Semi,
            TokenOf::Colon => TokenOf::Colon,
            TokenOf::ColonColon => TokenOf::ColonColon,
            TokenOf::Comma => TokenOf::Comma,
            TokenOf::Dot => TokenOf::Dot,
            TokenOf::Hash => TokenOf::Hash,
            TokenOf::Backtick => TokenOf::Backtick,
            TokenOf::Eof => TokenOf::Eof,
        }
    }
}

/// Executable tokens carry `String` payloads.
pub type Token = TokenOf<String>;

impl<S> TokenOf<S> {
    /// Index of the variant (payloads ignored).
    pub open spec fn kind_spec(self) -> u8 {
        match self {
            TokenOf::IntLit(_) => 0,
            TokenOf::FloatLit(_) => 1,
            TokenOf::BoolLit(_) => 2,
            TokenOf::StrLit(_) => 3,
            TokenOf::TemplateLitStart(_) => 4,
            TokenOf::TemplateLitMid(_) => 5,
            TokenOf::TemplateLitEnd(_) => 6,
            TokenOf::CharLit(_) => 7,
            TokenOf::Ident(_) => 8,
            TokenOf::Fn => 9,
            TokenOf::Let => 10,
            TokenOf::Const => 11,
            TokenOf::If => 12,
            TokenOf::Else => 13,
            TokenOf::Match => 14,
            TokenOf::Return => 15,
            TokenOf::Struct => 16,
            TokenOf::Enum => 17,
            TokenOf::Impl => 18,
            TokenOf::Trait => 19,
            TokenOf::For => 20,
            TokenOf::In => 21,
            TokenOf::While => 22,
            TokenOf::Loop => 23,
            TokenOf::Break => 24,
            TokenOf::Continue => 25,
            TokenOf::Import => 26,
            TokenOf::Export => 27,
            TokenOf::Mod => 28,
            TokenOf::Type => 29,
            TokenOf::As => 30,
            TokenOf::Async => 31,
            TokenOf::Await => 32,
            TokenOf::Macro => 33,
            TokenOf::Where => 34,
            TokenOf::This => 35,
            TokenOf::KwI32 => 36,
            TokenOf::KwI64 => 37,
            TokenOf::KwF32 => 38,
            TokenOf::KwF64 => 39,
            TokenOf::KwBoolean => 40,
            TokenOf::KwString => 41,
            TokenOf::KwChar => 42,
            TokenOf::KwVoid => 43,
            TokenOf::KwNumber => 44,
            TokenOf::Plus => 45,
            TokenOf::Minus => 46,
            TokenOf::Star => 47,
            TokenOf::Slash => 48,
            TokenOf::Percent => 49,
            TokenOf::Amp => 50,
            TokenOf::Pipe => 51,
            TokenOf::Caret => 52,
            TokenOf::Tilde => 53,
            TokenOf::Bang => 54,
            TokenOf::Eq => 55,
            TokenOf::EqEq => 56,
            TokenOf::EqEqLoose => 57,
            TokenOf::BangEq => 58,
            TokenOf::BangEqLoose => 59,
            TokenOf::Lt => 60,
            TokenOf::LtEq => 61,
            TokenOf::Gt => 62,
            TokenOf::GtEq => 63,
            TokenOf::LtLt => 64,
            TokenOf::GtGt => 65,
            TokenOf::PlusEq => 66,
            TokenOf::MinusEq => 67,
            TokenOf::StarEq => 68,
            TokenOf::SlashEq => 69,
            TokenOf::PercentEq => 70,
            TokenOf::AmpAmp => 71,
            TokenOf::PipePipe => 72,
            TokenOf::Arrow => 73,
            TokenOf::FatArrow => 74,
            TokenOf::DotDot => 75,
            TokenOf::DotDotEq => 76,
            TokenOf::Question => 77,
            TokenOf::At => 78,
            TokenOf::LParen => 79,
            TokenOf::RParen => 80,
            TokenOf::LBrace => 81,
            TokenOf::RBrace => 82,
            TokenOf::LBracket => 83,
            TokenOf::RBracket => 84,
            TokenOf::DollarLBrace => 85,
            TokenOf::Semi => 86,
            TokenOf::Colon => 87,
            TokenOf::ColonColon => 88,
            TokenOf::Comma => 89,
            TokenOf::Dot => 90,
            TokenOf::Hash => 91,
            TokenOf::Backtick => 92,
            TokenOf::LineComment(_) => 93,
            TokenOf::BlockComment(_) => 94,
            TokenOf::Error(_) => 95,
            TokenOf::Eof => 96,
        }
    }

    pub open spec fn is_trivia_spec(self) -> bool {
        self is LineComment || self is BlockComment
    }

    pub open spec fn is_literal_spec(self) -> bool {
        self is IntLit || self is FloatLit || self is BoolLit || self is StrLit || self is CharLit
    }

    /// Human-readable description used in error messages.
    pub open spec fn description(self) -> Seq<char> {
        match self {
            TokenOf::IntLit(_) => "integer literal"@,
            TokenOf::FloatLit(_) => "float literal"@,
            TokenOf::BoolLit(_) => "boolean literal"@,
            TokenOf::StrLit(_) => "string literal"@,
            TokenOf::TemplateLitStart(_) => "template literal"@,
            TokenOf::CharLit(_) => "character literal"@,
            TokenOf::Ident(_) => "identifier"@,
            TokenOf::Fn => "`fn`"@,
            TokenOf::Let => "`let`"@,
            TokenOf::Const => "`const`"@,
            TokenOf::If => "`if`"@,
            TokenOf::Else => "`else`"@,
            TokenOf::Match => "`match`"@,
            TokenOf::Return => "`return`"@,
            TokenOf::Struct => "`struct`"@,
            TokenOf::Enum => "`enum`"@,
            TokenOf::Impl => "`impl`"@,
            TokenOf::Trait => "`trait`"@,
            TokenOf::For => "`for`"@,
            TokenOf::In => "`in`"@,
            TokenOf::While => "`while`"@,
            TokenOf::Loop => "`loop`"@,
            TokenOf::Break => "`break`"@,
            TokenOf::Continue => "`continue`"@,
            TokenOf::Import => "`import`"@,
            TokenOf::Export => "`export`"@,
            TokenOf::Mod => "`mod`"@,
            TokenOf::Type => "`type`"@,
            TokenOf::As => "`as`"@,
            TokenOf::Async => "`async`"@,
            TokenOf::Await => "`await`"@,
            TokenOf::Macro => "`macro`"@,
            TokenOf::Where => "`where`"@,
            TokenOf::This => "`this`"@,
            TokenOf::Arrow => "`->`"@,
            TokenOf::FatArrow => "`=>`"@,
            TokenOf::EqEq => "`===`"@,
            TokenOf::BangEq => "`!==`"@,
            TokenOf::LtEq => "`<=`"@,
            TokenOf::GtEq => "`>=`"@,
            TokenOf::AmpAmp => "`&&`"@,
            TokenOf::PipePipe => "`||`"@,
            TokenOf::Semi => "`;`"@,
            TokenOf::Colon => "`:`"@,
            TokenOf::ColonColon => "`::`"@,
            TokenOf::Comma => "`,`"@,
            TokenOf::Dot => "`.`"@,
            TokenOf::LParen => "`(`"@,
            TokenOf::RParen => "`)`"@,
            TokenOf::LBrace => "`{`"@,
            TokenOf::RBrace => "`}`"@,
            TokenOf::LBracket => "`[`"@,
            TokenOf::RBracket => "`]`"@,
            TokenOf::Backtick => "`` ` ``"@,
            TokenOf::DollarLBrace => "`${`"@,
            TokenOf::Eof => "end of file"@,
            TokenOf::Error(_) => "unexpected character"@,
            _ => "token"@,
        }
    }
}

impl TokenOf<Seq<char>> {
    /// The `Debug` rendering of a token.
    pub open spec fn debug_text(self) -> Seq<char> {
        match self {
            TokenOf::IntLit(v) => "IntLit("@ + int_str(v as int) + ")"@,
            TokenOf::FloatLit(v) => "FloatLit("@ + v + ")"@,
            TokenOf::BoolLit(v) => "BoolLit("@ + (if v { "true"@ } else { "false"@ }) + ")"@,
            TokenOf::StrLit(v) => "StrLit("@ + str_debug_text(v) + ")"@,
            TokenOf::TemplateLitStart(v) => "TemplateLitStart("@ + str_debug_text(v) + ")"@,
            TokenOf::TemplateLitMid(v) => "TemplateLitMid("@ + str_debug_text(v) + ")"@,
            TokenOf::TemplateLitEnd(v) => "TemplateLitEnd("@ + str_debug_text(v) + ")"@,
            TokenOf::CharLit(v) => "CharLit("@ + char_debug_text(v) + ")"@,
            TokenOf::Ident(v) => "Ident("@ + str_debug_text(v) + ")"@,
            TokenOf::Fn => "Fn"@,
            TokenOf::Let => "Let"@,
            TokenOf::Const => "Const"@,
            TokenOf::If => "If"@,
            TokenOf::Else => "Else"@,
            TokenOf::Match => "Match"@,
            TokenOf::Return => "Return"@,
            TokenOf::Struct => "Struct"@,
            TokenOf::Enum => "Enum"@,
            TokenOf::Impl => "Impl"@,
            TokenOf::Trait => "Trait"@,
            TokenOf::For => "For"@,
            TokenOf::In => "In"@,
            TokenOf::While => "While"@,
            TokenOf::Loop => "Loop"@,
            TokenOf::Break => "Break"@,
            TokenOf::Continue => "Continue"@,
            TokenOf::Import => "Import"@,
            TokenOf::Export => "Export"@,
            TokenOf::Mod => "Mod"@,
            TokenOf::Type => "Type"@,
            TokenOf::As => "As"@,
            TokenOf::Async => "Async"@,
            TokenOf::Await => "Await"@,
            TokenOf::Macro => "Macro"@,
            TokenOf::Where => "Where"@,
            TokenOf::This => "This"@,
            TokenOf::KwI32 => "KwI32"@,
            TokenOf::KwI64 => "KwI64"@,
            TokenOf::KwF32 => "KwF32"@,
            TokenOf::KwF64 => "KwF64"@,
            TokenOf::KwBoolean => "KwBoolean"@,
            TokenOf::KwString => "KwString"@,
            TokenOf::KwChar => "KwChar"@,
            TokenOf::KwVoid => "KwVoid"@,
            TokenOf::KwNumber => "KwNumber"@,
            TokenOf::Plus => "Plus"@,
            TokenOf::Minus => "Minus"@,
            TokenOf::Star => "Star"@,
            TokenOf::Slash => "Slash"@,
            TokenOf::Percent => "Percent"@,
            TokenOf::Amp => "Amp"@,
            TokenOf::Pipe => "Pipe"@,
            TokenOf::Caret => "Caret"@,
            TokenOf::Tilde => "Tilde"@,
            TokenOf::Bang => "Bang"@,
            TokenOf::Eq => "Eq"@,
            TokenOf::EqEq => "EqEq"@,
            TokenOf::EqEqLoose => "EqEqLoose"@,
            TokenOf::BangEq => "BangEq"@,
            TokenOf::BangEqLoose => "BangEqLoose"@,
            TokenOf::Lt => "Lt"@,
            TokenOf::LtEq => "LtEq"@,
            TokenOf::Gt => "Gt"@,
            TokenOf::GtEq => "GtEq"@,
            TokenOf::LtLt => "LtLt"@,
            TokenOf::GtGt => "GtGt"@,
            TokenOf::PlusEq => "PlusEq"@,
            TokenOf::MinusEq => "MinusEq"@,
            TokenOf::StarEq => "StarEq"@,
            TokenOf::SlashEq => "SlashEq"@,
            TokenOf::PercentEq => "PercentEq"@,
            TokenOf::AmpAmp => "AmpAmp"@,
            TokenOf::PipePipe => "PipePipe"@,
            TokenOf::Arrow => "Arrow"@,
            TokenOf::FatArrow => "FatArrow"@,
            TokenOf::DotDot => "DotDot"@,
            TokenOf::DotDotEq => "DotDotEq"@,
            TokenOf::Question => "Question"@,
            TokenOf::At => "At"@,
            TokenOf::LParen => "LParen"@,
            TokenOf::RParen => "RParen"@,
            TokenOf::LBrace => "LBrace"@,
            TokenOf::RBrace => "RBrace"@,
            TokenOf::LBracket => "LBracket"@,
            TokenOf::RBracket => "RBracket"@,
            TokenOf::DollarLBrace => "DollarLBrace"@,
            TokenOf::Semi => "Semi"@,
            TokenOf::Colon => "Colon"@,
            TokenOf::ColonColon => "ColonColon"@,
            TokenOf::Comma => "Comma"@,
            TokenOf::Dot => "Dot"@,
            TokenOf::Hash => "Hash"@,
            TokenOf::Backtick => "Backtick"@,
            TokenOf::LineComment(v) => "LineComment("@ + str_debug_text(v) + ")"@,
            TokenOf::BlockComment(v) => "BlockComment("@ + str_debug_text(v) + ")"@,
            TokenOf::Error(v) => "Error("@ + char_debug_text(v) + ")"@,
            TokenOf::Eof => "Eof"@,
        }
    }
}

impl TokenOf<String> {
    /// Index of the variant (payloads ignored), as `std::mem::discriminant` distinguishes them.
    pub fn kind(&self) -> (k: u8)
        ensures
            k == self.kind_spec(),
    {
        match self {
            TokenOf::IntLit(_) => 0,
            TokenOf::FloatLit(_) => 1,
            TokenOf::BoolLit(_) => 2,
            TokenOf::StrLit(_) => 3,
            TokenOf::TemplateLitStart(_) => 4,
            TokenOf::TemplateLitMid(_) => 5,
            TokenOf::TemplateLitEnd(_) => 6,
            TokenOf::CharLit(_) => 7,
            TokenOf::Ident(_) => 8,
            TokenOf::Fn => 9,
            TokenOf::Let => 10,
            TokenOf::Const => 11,
            TokenOf::If => 12,
            TokenOf::Else => 13,
            TokenOf::Match => 14,
            TokenOf::Return => 15,
            TokenOf::Struct => 16,
            TokenOf::Enum => 17,
            TokenOf::Impl => 18,
            TokenOf::Trait => 19,
            TokenOf::For => 20,
            TokenOf::In => 21,
            TokenOf::While => 22,
            TokenOf::Loop => 23,
            TokenOf::Break => 24,
            TokenOf::Continue => 25,
            TokenOf::Import => 26,
            TokenOf::Export => 27,
            TokenOf::Mod => 28,
            TokenOf::Type => 29,
            TokenOf::As => 30,
            TokenOf::Async => 31,
            TokenOf::Await => 32,
            TokenOf::Macro => 33,
            TokenOf::Where => 34,
            TokenOf::This => 35,
            TokenOf::KwI32 => 36,
            TokenOf::KwI64 => 37,
            TokenOf::KwF32 => 38,
            TokenOf::KwF64 => 39,
            TokenOf::KwBoolean => 40,
            TokenOf::KwString => 41,
            TokenOf::KwChar => 42,
            TokenOf::KwVoid => 43,
            TokenOf::KwNumber => 44,
            TokenOf::Plus => 45,
            TokenOf::Minus => 46,
            TokenOf::Star => 47,
            TokenOf::Slash => 48,
            TokenOf::Percent => 49,
            TokenOf::Amp => 50,
            TokenOf::Pipe => 51,
            TokenOf::Caret => 52,
            TokenOf::Tilde => 53,
            TokenOf::Bang => 54,
            TokenOf::Eq => 55,
            TokenOf::EqEq => 56,
            TokenOf::EqEqLoose => 57,
            TokenOf::BangEq => 58,
            TokenOf::BangEqLoose => 59,
            TokenOf::Lt => 60,
            TokenOf::LtEq => 61,
            TokenOf::Gt => 62,
            TokenOf::GtEq => 63,
            TokenOf::LtLt => 64,
            TokenOf::GtGt => 65,
            TokenOf::PlusEq => 66,
            TokenOf::MinusEq => 67,
            TokenOf::StarEq => 68,
            TokenOf::SlashEq => 69,
            TokenOf::PercentEq => 70,
            TokenOf::AmpAmp => 71,
            TokenOf::PipePipe => 72,
            TokenOf::Arrow => 73,
            TokenOf::FatArrow => 74,
            TokenOf::DotDot => 75,
            TokenOf::DotDotEq => 76,
            TokenOf::Question => 77,
            TokenOf::At => 78,
            TokenOf::LParen => 79,
            TokenOf::RParen => 80,
            TokenOf::LBrace => 81,
            TokenOf::RBrace => 82,
            TokenOf::LBracket => 83,
            TokenOf::RBracket => 84,
            TokenOf::DollarLBrace => 85,
            TokenOf::Semi => 86,
            TokenOf::Colon => 87,
            TokenOf::ColonColon => 88,
            TokenOf::Comma => 89,
            TokenOf::Dot => 90,
            TokenOf::Hash => 91,
            TokenOf::Backtick => 92,
            TokenOf::LineComment(_) => 93,
            TokenOf::BlockComment(_) => 94,
            TokenOf::Error(_) => 95,
            TokenOf::Eof => 96,
        }
    }

    /// The `Debug` rendering of a token.
    pub fn debug_string(&self) -> (r: String)
        ensures
            r@ == self@.debug_text(),
    {
        let mut r = String::new();
        match self {
            TokenOf::IntLit(v) => {
                push_str(&mut r, "IntLit(");
                let t = i64_to_string(*v);
                push_str(&mut r, t.as_str());
                push_str(&mut r, ")");
            },
            TokenOf::FloatLit(v) => {
                push_str(&mut r, "FloatLit(");
                push_str(&mut r, v.as_str());
                push_str(&mut r, ")");
            },
            TokenOf::BoolLit(v) => {
                push_str(&mut r, "BoolLit(");
                push_str(&mut r, if *v { "true" } else { "false" });
                push_str(&mut r, ")");
            },
            TokenOf::StrLit(v) => {
                push_str(&mut r, "StrLit(");
                let t = str_debug(v.as_str());
                push_str(&mut r, t.as_str());
                push_str(&mut r, ")");
            },
            TokenOf::TemplateLitStart(v) => {
                push_str(&mut r, "TemplateLitStart(");
                let t = str_debug(v.as_str());
                push_str(&mut r, t.as_str());
                push_str(&mut r, ")");
            },
            TokenOf::TemplateLitMid(v) => {
                push_str(&mut r, "TemplateLitMid(");
                let t = str_debug(v.as_str());
                push_str(&mut r, t.as_str());
                push_str(&mut r, ")");
            },
            TokenOf::TemplateLitEnd(v) => {
                push_str(&mut r, "TemplateLitEnd(");
                let t = str_debug(v.as_str());
                push_str(&mut r, t.as_str());
                push_str(&mut r, ")");
            },
            TokenOf::CharLit(v) => {
                push_str(&mut r, "CharLit(");
                let t = char_debug(*v);
                push_str(&mut r, t.as_str());
                push_str(&mut r, ")");
            },
            TokenOf::Ident(v) => {
                push_str(&mut r, "Ident(");
                let t = str_debug(v.as_str());
                push_str(&mut r, t.as_str());
                push_str(&mut r, ")");
            },
            TokenOf::Fn => {
                push_str(&mut r, "Fn");
            },
            TokenOf::Let => {
                push_str(&mut r, "Let");
            },
            TokenOf::Const => {
                push_str(&mut r, "Const");
            },
            TokenOf::If => {
                push_str(&mut r, "If");
            },
            TokenOf::Else => {
                push_str(&mut r, "Else");
            },
            TokenOf::Match => {
                push_str(&mut r, "Match");
            },
            TokenOf::Return => {
                push_str(&mut r, "Return");
            },
            TokenOf::Struct => {
                push_str(&mut r, "Struct");
            },
            TokenOf::Enum => {
                push_str(&mut r, "Enum");
            },
            TokenOf::Impl => {
                push_str(&mut r, "Impl");
            },
            TokenOf::Trait => {
                push_str(&mut r, "Trait");
            },
            TokenOf::For => {
                push_str(&mut r, "For");
            },
            TokenOf::In => {
                push_str(&mut r, "In");
            },
            TokenOf::While => {
                push_str(&mut r, "While");
            },
            TokenOf::Loop => {
                push_str(&mut r, "Loop");
            },
            TokenOf::Break => {
                push_str(&mut r, "Break");
            },
            TokenOf::Continue => {
                push_str(&mut r, "Continue");
            },
            TokenOf::Import => {
                push_str(&mut r, "Import");
            },
            TokenOf::Export => {
                push_str(&mut r, "Export");
            },
            TokenOf::Mod => {
                push_str(&mut r, "Mod");
            },
            TokenOf::Type => {
                push_str(&mut r, "Type");
            },
            TokenOf::As => {
                push_str(&mut r, "As");
            },
            TokenOf::Async => {
                push_str(&mut r, "Async");
            },
            TokenOf::Await => {
                push_str(&mut r, "Await");
            },
            TokenOf::Macro => {
                push_str(&mut r, "Macro");
            },
            TokenOf::Where => {
                push_str(&mut r, "Where");
            },
            TokenOf::This => {
                push_str(&mut r, "This");
            },
            TokenOf::KwI32 => {
                push_str(&mut r, "KwI32");
            },
            TokenOf::KwI64 => {
                push_str(&mut r, "KwI64");
            },
            TokenOf::KwF32 => {
                push_str(&mut r, "KwF32");
            },
            TokenOf::KwF64 => {
                push_str(&mut r, "KwF64");
            },
            TokenOf::KwBoolean => {
                push_str(&mut r, "KwBoolean");
            },
            TokenOf::KwString => {
                push_str(&mut r, "KwString");
            },
            TokenOf::KwChar => {
                push_str(&mut r, "KwChar");
            },
            TokenOf::KwVoid => {
                push_str(&mut r, "KwVoid");
            },
            TokenOf::KwNumber => {
                push_str(&mut r, "KwNumber");
            },
            TokenOf::Plus => {
                push_str(&mut r, "Plus");
            },
            TokenOf::Minus => {
                push_str(&mut r, "Minus");
            },
            TokenOf::Star => {
                push_str(&mut r, "Star");
            },
            TokenOf::Slash => {
                push_str(&mut r, "Slash");
            },
            TokenOf::Percent => {
                push_str(&mut r, "Percent");
            },
            TokenOf::Amp => {
                push_str(&mut r, "Amp");
            },
            TokenOf::Pipe => {
                push_str(&mut r, "Pipe");
            },
            TokenOf::Caret => {
                push_str(&mut r, "Caret");
            },
            TokenOf::Tilde => {
                push_str(&mut r, "Tilde");
            },
            TokenOf::Bang => {
                push_str(&mut r, "Bang");
            },
            TokenOf::Eq => {
                push_str(&mut r, "Eq");
            },
            TokenOf::EqEq => {
                push_str(&mut r, "EqEq");
            },
            TokenOf::EqEqLoose => {
                push_str(&mut r, "EqEqLoose");
            },
            TokenOf::BangEq => {
                push_str(&mut r, "BangEq");
            },
            TokenOf::BangEqLoose => {
                push_str(&mut r, "BangEqLoose");
            },
            TokenOf::Lt => {
                push_str(&mut r, "Lt");
            },
            TokenOf::LtEq => {
                push_str(&mut r, "LtEq");
            },
            TokenOf::Gt => {
                push_str(&mut r, "Gt");
            },
            TokenOf::GtEq => {
                push_str(&mut r, "GtEq");
            },
            TokenOf::LtLt => {
                push_str(&mut r, "LtLt");
            },
            TokenOf::GtGt => {
                push_str(&mut r, "GtGt");
            },
            TokenOf::PlusEq => {
                push_str(&mut r, "PlusEq");
            },
            TokenOf::MinusEq => {
                push_str(&mut r, "MinusEq");
            },
            TokenOf::StarEq => {
                push_str(&mut r, "StarEq");
            },
            TokenOf::SlashEq => {
                push_str(&mut r, "SlashEq");
            },
            TokenOf::PercentEq => {
                push_str(&mut r, "PercentEq");
            },
            TokenOf::AmpAmp => {
                push_str(&mut r, "AmpAmp");
            },
            TokenOf::PipePipe => {
                push_str(&mut r, "PipePipe");
            },
            TokenOf::Arrow => {
                push_str(&mut r, "Arrow");
            },
            TokenOf::FatArrow => {
                push_str(&mut r, "FatArrow");
            },
            TokenOf::DotDot => {
                push_str(&mut r, "DotDot");
            },
            TokenOf::DotDotEq => {
                push_str(&mut r, "DotDotEq");
            },
            TokenOf::Question => {
                push_str(&mut r, "Question");
            },
            TokenOf::At => {
                push_str(&mut r, "At");
            },
            TokenOf::LParen => {
                push_str(&mut r, "LParen");
            },
            TokenOf::RParen => {
                push_str(&mut r, "RParen");
            },
            TokenOf::LBrace => {
                push_str(&mut r, "LBrace");
            },
            TokenOf::RBrace => {
                push_str(&mut r, "RBrace");
            },
            TokenOf::LBracket => {
                push_str(&mut r, "LBracket");
            },
            TokenOf::RBracket => {
                push_str(&mut r, "RBracket");
            },
            TokenOf::DollarLBrace => {
                push_str(&mut r, "DollarLBrace");
            },
            TokenOf::Semi => {
                push_str(&mut r, "Semi");
            },
            TokenOf::Colon => {
                push_str(&mut r, "Colon");
            },
            TokenOf::ColonColon => {
                push_str(&mut r, "ColonColon");
            },
            TokenOf::Comma => {
                push_str(&mut r, "Comma");
            },
            TokenOf::Dot => {
                push_str(&mut r, "Dot");
            },
            TokenOf::Hash => {
                push_str(&mut r, "Hash");
            },
            TokenOf::Backtick => {
                push_str(&mut r, "Backtick");
            },
            TokenOf::LineComment(v) => {
                push_str(&mut r, "LineComment(");
                let t = str_debug(v.as_str());
                push_str(&mut r, t.as_str());
                push_str(&mut r, ")");
            },
            TokenOf::BlockComment(v) => {
                push_str(&mut r, "BlockComment(");
                let t = str_debug(v.as_str());
                push_str(&mut r, t.as_str());
                push_str(&mut r, ")");
            },
            TokenOf::Error(v) => {
                push_str(&mut r, "Error(");
                let t = char_debug(*v);
                push_str(&mut r, t.as_str());
                push_str(&mut r, ")");
            },
            TokenOf::Eof => {
                push_str(&mut r, "Eof");
            },
        }
        r
    }

    /// Comments are trivia: kept for tools, skipped by the parser.
    pub fn is_trivia(&self) -> (b: bool)
        ensures
            b == self.is_trivia_spec(),
    {
        match self {
            TokenOf::LineComment(_) | TokenOf::BlockComment(_) => true,
            _ => false,
        }
    }

    pub fn is_literal(&self) -> (b: bool)
        ensures
            b == self.is_literal_spec(),
    {
        match self {
            TokenOf::IntLit(_) | TokenOf::FloatLit(_) | TokenOf::BoolLit(_) | TokenOf::StrLit(_)
            | TokenOf::CharLit(_) => true,
            _ => false,
        }
    }

    pub fn is_eof(&self) -> (b: bool)
        ensures
            b == (self is Eof),
    {
        match self {
            TokenOf::Eof => true,
            _ => false,
        }
    }

    /// Human-readable description used in error messages.
    pub fn describe(&self) -> (d: &'static str)
        ensures
            d@ == self.description(),
    {
        match self {
            TokenOf::IntLit(_) => "integer literal",
            TokenOf::FloatLit(_) => "float literal",
            TokenOf::BoolLit(_) => "boolean literal",
            TokenOf::StrLit(_) => "string literal",
            TokenOf::TemplateLitStart(_) => "template literal",
            TokenOf::CharLit(_) => "character literal",
            TokenOf::Ident(_) => "identifier",
            TokenOf::Fn => "`fn`",
            TokenOf::Let => "`let`",
            TokenOf::Const => "`const`",
            TokenOf::If => "`if`",
            TokenOf::Else => "`else`",
            TokenOf::Match => "`match`",
            TokenOf::Return => "`return`",
            TokenOf::Struct => "`struct`",
            TokenOf::Enum => "`enum`",
            TokenOf::Impl => "`impl`",
            TokenOf::Trait => "`trait`",
            TokenOf::For => "`for`",
            TokenOf::In => "`in`",
            TokenOf::While => "`while`",
            TokenOf::Loop => "`loop`",
            TokenOf::Break => "`break`",
            TokenOf::Continue => "`continue`",
            TokenOf::Import => "`import`",
            TokenOf::Export => "`export`",
            TokenOf::Mod => "`mod`",
            TokenOf::Type => "`type`",
            TokenOf::As => "`as`",
            TokenOf::Async => "`async`",
            TokenOf::Await => "`await`",
            TokenOf::Macro => "`macro`",
            TokenOf::Where => "`where`",
            TokenOf::This => "`this`",
            TokenOf::Arrow => "`->`",
            TokenOf::FatArrow => "`=>`",
            TokenOf::EqEq => "`===`",
            TokenOf::BangEq => "`!==`",
            TokenOf::LtEq => "`<=`",
            TokenOf::GtEq => "`>=`",
            TokenOf::AmpAmp => "`&&`",
            TokenOf::PipePipe => "`||`",
            TokenOf::Semi => "`;`",
            TokenOf::Colon => "`:`",
            TokenOf::ColonColon => "`::`",
            TokenOf::Comma => "`,`",
            TokenOf::Dot => "`.`",
            TokenOf::LParen => "`(`",
            TokenOf::RParen => "`)`",
            TokenOf::LBrace => "`{`",
            TokenOf::RBrace => "`}`",
            TokenOf::LBracket => "`[`",
            TokenOf::RBracket => "`]`",
            TokenOf::Backtick => "`` ` ``",
            TokenOf::DollarLBrace => "`${`",
            TokenOf::Eof => "end of file",
            TokenOf::Error(_) => "unexpected character",
            _ => "token",
        }
    }
}

/// Recoverable lexer errors.
#[derive(Debug, Clone, Copy, PartialEq, Eq, Structural)]
pub enum LexError {
    UnexpectedChar { ch: char, span: Span },
    UnterminatedString { span: Span },
    UnterminatedBlockComment { span: Span },
    InvalidEscape { ch: char, span: Span },
    IntegerOverflow { span: Span },
}

/// `Span { start: S, end: E, file_id: F }`, the debug rendering of a span.
pub open spec fn span_text(s: Span) -> Seq<char> {
    "Span { start: "@ + nat_digits(s.start as nat) + ", end: "@ + nat_digits(s.end as nat)
        + ", file_id: "@ + nat_digits(s.file_id as nat) + " }"@
}

pub fn span_string(s: Span) -> (r: String)
    ensures
        r@ == span_text(s),
{
    let mut r = String::new();
    push_str(&mut r, "Span { start: ");
    let a = u64_to_string(s.start as u64);
    push_str(&mut r, a.as_str());
    push_str(&mut r, ", end: ");
    let b = u64_to_string(s.end as u64);
    push_str(&mut r, b.as_str());
    push_str(&mut r, ", file_id: ");
    let c = u64_to_string(s.file_id as u64);
    push_str(&mut r, c.as_str());
    push_str(&mut r, " }");
    r
}

impl LexError {
    pub open spec fn message_spec(self) -> Seq<char> {
        match self {
            LexError::UnexpectedChar { ch, span } => "unexpected character `"@.push(ch) + "` at "@
                + span_text(span),
            LexError::UnterminatedString { span } => "unterminated string literal starting at "@
                + span_text(span),
            LexError::UnterminatedBlockComment { span } =>
                "unterminated block comment starting at "@ + span_text(span),
            LexError::InvalidEscape { ch, span } => "invalid escape sequence `\\"@.push(ch)
                + "` at "@ + span_text(span),
            LexError::IntegerOverflow { span } => "integer literal out of range at "@ + span_text(
                span,
            ),
        }
    }

    /// The error's human-readable message.
    pub fn message(&self) -> (m: String)
        ensures
            m@ == self.message_spec(),
    {
        let mut m = String::new();
        match self {
            LexError::UnexpectedChar { ch, span } => {
                push_str(&mut m, "unexpected character `");
                push_char(&mut m, *ch);
                push_str(&mut m, "` at ");
                let t = span_string(*span);
                push_str(&mut m, t.as_str());
            },
            LexError::UnterminatedString { span } => {
                push_str(&mut m, "unterminated string literal starting at ");
                let t = span_string(*span);
                push_str(&mut m, t.as_str());
            },
            LexError::UnterminatedBlockComment { span } => {
                push_str(&mut m, "unterminated block comment starting at ");
                let t = span_string(*span);
                push_str(&mut m, t.as_str());
            },
            LexError::InvalidEscape { ch, span } => {
                push_str(&mut m, "invalid escape sequence `\\");
                push_char(&mut m, *ch);
                push_str(&mut m, "` at ");
                let t = span_string(*span);
                push_str(&mut m, t.as_str());
            },
            LexError::IntegerOverflow { span } => {
                push_str(&mut m, "integer literal out of range at ");
                let t = span_string(*span);
                push_str(&mut m, t.as_str());
            },
        }
        m
    }
}

} // verus!
