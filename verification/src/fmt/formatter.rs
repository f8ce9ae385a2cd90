//! The formatter's entry point: parse, then print canonically.

use vstd::prelude::*;
use crate::lexer::{Lexer, lex_tokens, tokens_view};
use crate::parser::{Parser, lemma_without_trivia_only_eof};
use crate::ast::Module;
use crate::fmt::printer::Printer;
use crate::fmt::layout::module_text;
use crate::text::{string_of, push_str};

verus! {

#[derive(Debug, Clone, PartialEq)]
pub enum FmtError {
    /// The source has lexical or syntax errors (their messages, joined).
    Parse(String),
}

impl FmtError {
    pub fn message(&self) -> (m: String)
        ensures
            match self {
                FmtError::Parse(s) => m@ == "parse error(s): "@ + s@,
            },
    {
        match self {
            FmtError::Parse(s) => {
                let mut m = string_of("parse error(s): ");
                push_str(&mut m, s.as_str());
                m
            },
        }
    }
}

/// `t`, with a newline added unless it already ends with one.
pub open spec fn with_newline(t: Seq<char>) -> Seq<char> {
    if t.len() > 0 && t.last() == '\n' {
        t
    } else {
        t.push('\n')
    }
}

/// The formatter.
pub struct Formatter {
    /// Indentation width in spaces.
    indent: usize,
}

impl Default for Formatter {
    fn default() -> (f: Formatter)
        ensures
            f.indent_width() == 4,
    {
        Formatter::new()
    }
}

impl Formatter {
    pub closed spec fn indent_width(&self) -> usize {
        self.indent
    }

    pub fn new() -> (f: Formatter)
        ensures
            f.indent_width() == 4,
    {
        Formatter { indent: 4 }
    }

    /// Parses `src` and returns it in canonical form; any lexical or syntax
    /// error is reported instead, every message joined by `; `.
    pub fn format_src(&self, src: &str) -> (r: Result<String, FmtError>)
        requires
            4 * src@.len() < usize::MAX,
        ensures
            lex_tokens(src@, 0).1.len() > 0 ==> r is Err,
            r matches Ok(s) ==> s@.len() > 0 && s@.last() == '\n',
            lex_tokens(src@, 0).1.len() == 0 && (forall|i: int|
                0 <= i < lex_tokens(src@, 0).0.len() ==> (#[trigger] lex_tokens(src@, 0).0[i]).node.is_trivia_spec()
                    || lex_tokens(src@, 0).0[i].node is Eof) ==> (r matches Ok(s) && s@ == seq!['\n']),
    {
        let (tokens, lex_errors) = Lexer::new(src, 0).tokenize();
        proof {
            let lt = lex_tokens(src@, 0).0;
            if lex_tokens(src@, 0).1.len() == 0 && (forall|i: int|
                0 <= i < lt.len() ==> (#[trigger] lt[i]).node.is_trivia_spec() || lt[i].node is Eof) {
                assert forall|i: int| 0 <= i < tokens@.len() implies (#[trigger] tokens@[i]).node.is_trivia_spec()
                    || tokens@[i].node is Eof by {
                    assert(tokens_view(tokens@)[i].node == tokens@[i].node@);
                    assert(lt[i].node == tokens@[i].node@);
                }
                lemma_without_trivia_only_eof(tokens@);
            }
        }
        let (module, parse_errors) = Parser::new(tokens, 0).parse();
        let mut msgs = String::new();
        let mut any = false;
        let mut i: usize = 0;
        while i < lex_errors.len()
            invariant
                i <= lex_errors@.len(),
                any == (i > 0),
            decreases lex_errors.len() - i,
        {
            if any {
                push_str(&mut msgs, "; ");
            }
            push_str(&mut msgs, lex_errors[i].message().as_str());
            any = true;
            i = i + 1;
        }
        let mut j: usize = 0;
        while j < parse_errors.len()
            invariant
                j <= parse_errors@.len(),
                any == (lex_errors@.len() > 0 || j > 0),
            decreases parse_errors.len() - j,
        {
            if any {
                push_str(&mut msgs, "; ");
            }
            push_str(&mut msgs, parse_errors[j].message().as_str());
            any = true;
            j = j + 1;
        }
        if any {
            return Err(FmtError::Parse(msgs));
        }
        let out = self.format_module(&module);
        proof {
            if module.items@.len() == 0 {
                assert(module_text(module, 0, self.indent_width()) =~= seq![]);
                assert(out@ =~= seq!['\n']);
            }
        }
        Ok(out)
    }

    /// Formats an already-parsed module: its canonical text at depth 0,
    /// ending with a newline.
    pub fn format_module(&self, module: &Module) -> (s: String)
        ensures
            s@ == with_newline(module_text(*module, 0, self.indent_width())),
            s@.len() > 0 && s@.last() == '\n',
    {
        let mut p = Printer::new(self.indent);
        p.print_module(module);
        assert(p.text() =~= module_text(*module, 0, self.indent));
        p.finish()
    }
}

} // verus!
