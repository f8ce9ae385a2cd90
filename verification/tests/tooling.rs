use selvr::codegen::js::JsEmitter;
use selvr::codegen::sourcemap::{Mapping, SourceMap};
use selvr::dap::adapter::{build_source_map, compile_and_map, Adapter};
use selvr::dap::protocol::{
    DapArguments, DapBody, DapMessage, DapRequest, DapSource, LaunchArgs, SetBreakpointsArgs,
    SourceBreakpoint,
};
use selvr::fmt::formatter::Formatter;
use selvr::lexer::Lexer;
use selvr::lint::diag::offset_to_line_col;
use selvr::lint::linter::{LintConfig, Linter};
use selvr::lsp::completion::{builtin_completions, completions, CompletionKind};
use selvr::lsp::diagnostics::{lint_diagnostics, DiagnosticLevel};
use selvr::lsp::hover::hover;
use selvr::lsp::position::{position_to_offset, span_to_range, word_at, LspPosition};
use selvr::lsp::server::{document_symbols, find_definition, replace_all_edit, SymbolCategory};
use selvr::parser::Parser;
use selvr::token::Span;

fn parse(src: &str) -> selvr::ast::Module {
    let (tokens, _) = Lexer::new(src, 0).tokenize();
    Parser::new(tokens, 0).parse().0
}

const PROGRAM: &str = "fn add(a: i32, b: i32): i32 {\n    return a + b;\n}\n\nstruct Point {\n    x: f64;\n    y: f64;\n}\n";

#[test]
fn source_map_json() {
    let mut sm = SourceMap::new("out.js", &["a.self"]);
    sm.new_line();
    sm.new_line();
    assert_eq!(
        sm.to_json(),
        r#"{"version":3,"file":"out.js","sources":["a.self"],"mappings":";;"}"#
    );
}

#[test]
fn js_emits_function() {
    let m = parse(PROGRAM);
    let (js, map) = JsEmitter::new("out.js", "main.self").emit_module(&m).unwrap();
    assert!(js.contains("function add(a, b) "));
    assert!(js.contains("class Point {"));
    assert!(js.ends_with("\n//# sourceMappingURL=output.js.map\n"));
    assert!(map.starts_with(r#"{"version":3,"file":"out.js","sources":["main.self"]"#));
}

#[test]
fn formatter_output_ends_with_newline() {
    let f = Formatter::new();
    let out = f.format_src("fn main(): void { return; }").unwrap();
    assert!(out.ends_with('\n'));
    assert!(out.contains("fn main"));
    assert!(f.format_src("fn main( { \"unterminated").is_err());
}

#[test]
fn line_and_column_of_offset() {
    let src = "ab\ncd\nef";
    assert_eq!(offset_to_line_col(src, 0), (1, 1));
    assert_eq!(offset_to_line_col(src, 4), (2, 2));
    assert_eq!(offset_to_line_col(src, 100), (3, 3));
}

#[test]
fn unused_variable_is_reported() {
    let src = "fn main(): void {\n    let unused: i32 = 1;\n    return;\n}\n";
    let diags = Linter::new(LintConfig::default()).check_src(src);
    assert!(diags.iter().any(|d| d.code == "SL001"));
}

#[test]
fn lex_errors_become_sl000() {
    let diags = Linter::new(LintConfig::default()).check_src("fn main() { \"open");
    assert!(!diags.is_empty());
    assert!(diags.iter().all(|d| d.code == "SL000" && d.span.line == 1 && d.span.col == 1));
    let lsp = lint_diagnostics("fn main() { \"open");
    assert_eq!(lsp.len(), diags.len());
    assert!(lsp.iter().all(|d| d.code == "SL000" && d.source == "selvr"));
    assert!(lsp.iter().all(|d| d.severity == DiagnosticLevel::Error));
}

#[test]
fn positions_and_words() {
    let src = "fn add(a: i32)\nlet é = add";
    assert_eq!(position_to_offset(src, LspPosition { line: 0, character: 3 }), Some(3));
    assert_eq!(position_to_offset(src, LspPosition { line: 1, character: 6 }), Some(22));
    assert_eq!(position_to_offset(src, LspPosition { line: 5, character: 0 }), None);
    assert_eq!(word_at(src, 4).as_deref(), Some("add"));
    assert_eq!(word_at(src, 2), None);
    assert_eq!(word_at(src, 1000), None);
    let r = span_to_range("ab\ncd", Span { start: 3, end: 5, file_id: 0 });
    assert_eq!((r.start.line, r.start.character, r.end.line, r.end.character), (1, 0, 1, 2));
}

#[test]
fn hover_on_function_and_keyword() {
    let h = hover(PROGRAM, LspPosition { line: 0, character: 4 }).unwrap();
    assert!(h.value.starts_with("```selvr\nfn add(a: i32, b: i32): i32\n```\n\n"));
    assert!(h.value.contains("Compiler score: `"));
    assert!(h.range.is_some());
    let s = hover(PROGRAM, LspPosition { line: 4, character: 8 }).unwrap();
    assert_eq!(s.value, "```selvr\nstruct Point {\n    x: f64,\n    y: f64,\n}\n```");
    let k = hover(PROGRAM, LspPosition { line: 0, character: 0 }).unwrap();
    assert_eq!(k.value, "**`fn`** — Define a function");
    assert!(k.range.is_none());
    assert!(hover(PROGRAM, LspPosition { line: 0, character: 6 }).is_none());
}

#[test]
fn completion_entries() {
    let b = builtin_completions();
    assert_eq!(b.len(), 27 + 18 + 5);
    assert_eq!(b[0].label, "fn");
    assert_eq!(b[0].kind, CompletionKind::Keyword);
    assert_eq!(b[27].label, "i8");
    assert_eq!(b[27].detail, "built-in type");
    let all = completions(PROGRAM, LspPosition { line: 0, character: 0 });
    assert_eq!(all.len(), 52);
    assert_eq!(all[50].label, "add");
    assert_eq!(all[50].detail, "fn(a: i32, b: i32): i32");
    assert_eq!(all[51].kind, CompletionKind::Struct);
}

#[test]
fn definitions_and_symbols() {
    let r = find_definition(PROGRAM, LspPosition { line: 0, character: 4 }).unwrap();
    assert_eq!((r.start.line, r.start.character), (0, 0));
    assert!(find_definition(PROGRAM, LspPosition { line: 1, character: 12 }).is_none());
    let syms = document_symbols(PROGRAM);
    assert_eq!(syms.len(), 2);
    assert_eq!(syms[0].name, "add");
    assert_eq!(syms[0].kind, SymbolCategory::Function);
    assert_eq!(syms[1].kind, SymbolCategory::Struct);
    assert_eq!(syms[1].range.start.line, 4);
}

#[test]
fn whole_document_edit() {
    assert!(replace_all_edit("same", "same".to_string()).is_empty());
    let e = replace_all_edit("a\nbc\r\n", "x".to_string());
    assert_eq!(e.len(), 1);
    assert_eq!((e[0].range.end.line, e[0].range.end.character), (1, 2));
    let f = replace_all_edit("a\nbcd", "x".to_string());
    assert_eq!((f[0].range.end.line, f[0].range.end.character), (1, 3));
}

fn request(seq: u64, command: &str, arguments: DapArguments) -> DapRequest {
    DapRequest { seq, command: command.to_string(), arguments }
}

#[test]
fn adapter_initialize_and_unknown() {
    let mut a = Adapter::new();
    let out = a.handle(&request(7, "initialize", DapArguments::Absent));
    assert_eq!(out.len(), 2);
    match &out[0] {
        DapMessage::Response(r) => {
            assert_eq!((r.seq, r.request_seq, r.success), (1, 7, true));
            assert!(matches!(r.body, Some(DapBody::Capabilities(c)) if c.supports_terminate_request));
        }
        _ => panic!("expected a response"),
    }
    match &out[1] {
        DapMessage::Event(e) => assert_eq!((e.seq, e.event.as_str()), (2, "initialized")),
        _ => panic!("expected an event"),
    }
    let out = a.handle(&request(8, "frobnicate", DapArguments::Absent));
    match &out[0] {
        DapMessage::Response(r) => {
            assert_eq!(r.seq, 3);
            assert!(!r.success);
            assert_eq!(r.message.as_deref(), Some("unsupported command"));
        }
        _ => panic!("expected a response"),
    }
    assert_eq!(a.seq(), 4);
}

#[test]
fn adapter_breakpoints_are_numbered() {
    let mut a = Adapter::new();
    let args = SetBreakpointsArgs {
        source: DapSource { name: None, path: Some("m.self".to_string()), source_reference: None },
        breakpoints: vec![
            SourceBreakpoint { line: 3, column: None, condition: None },
            SourceBreakpoint { line: 9, column: None, condition: None },
        ],
    };
    let out = a.handle(&request(1, "setBreakpoints", DapArguments::SetBreakpoints(args)));
    match &out[0] {
        DapMessage::Response(r) => match &r.body {
            Some(DapBody::Breakpoints(v)) => {
                assert_eq!(v.len(), 2);
                assert_eq!((v[0].id, v[0].line, v[0].verified), (1, Some(3), true));
                assert_eq!((v[1].id, v[1].line), (2, Some(9)));
            }
            _ => panic!("expected breakpoints"),
        },
        _ => panic!("expected a response"),
    }
    assert_eq!(a.next_breakpoint_id(), 3);
}

#[test]
fn adapter_launch_without_stop() {
    let mut a = Adapter::new();
    let args = LaunchArgs { program: "m.self".to_string(), stop_on_entry: false, runtime: "js".to_string() };
    let out = a.handle(&request(1, "launch", DapArguments::Launch { args, source: Some(PROGRAM.to_string()) }));
    assert_eq!(out.len(), 4);
    let names: Vec<&str> = out[1..]
        .iter()
        .map(|m| match m {
            DapMessage::Event(e) => e.event.as_str(),
            _ => "",
        })
        .collect();
    assert_eq!(names, vec!["continued", "exited", "terminated"]);
}

#[test]
fn source_map_lines() {
    let m = parse(PROGRAM);
    let entries = build_source_map(PROGRAM, &m, None);
    assert_eq!(entries.len(), 1);
    assert_eq!((entries[0].selvr_line, entries[0].js_line, entries[0].runtime), (1, 1, "js"));
}

#[test]
fn canonical_format_of_a_function() {
    let f = Formatter::new();
    assert_eq!(
        f.format_src("fn main(): void { return; }").unwrap(),
        "fn main(): void {\n    return;\n}\n"
    );
    assert_eq!(
        f.format_src("fn add(a: i32, b: i32): i32 { return a + b; }").unwrap(),
        "fn add(a: i32, b: i32): i32 {\n    return a + b;\n}\n"
    );
}

#[test]
fn js_text_of_a_function() {
    let m = parse("fn main(): void { return; }");
    let (js, _) = JsEmitter::new("out.js", "main.self").emit_module(&m).unwrap();
    assert!(js.ends_with("function main() {\n  return;\n}\n\n\n//# sourceMappingURL=output.js.map\n"));
    let bin = parse("fn f(a: i32): i32 { return a * 2; }");
    let (js2, _) = JsEmitter::new("out.js", "f.self").emit_module(&bin).unwrap();
    assert!(js2.contains("function f(a) {\n  return (a * 2);\n}\n"));
}

#[test]
fn format_src_of_comments_only_is_one_newline() {
    let f = Formatter::new();
    assert_eq!(f.format_src("").unwrap(), "\n");
    assert_eq!(f.format_src("// nothing here\n").unwrap(), "\n");
    assert_eq!(f.format_src("  /* block */  ").unwrap(), "\n");
}

#[test]
fn compile_and_map_lines() {
    assert!(compile_and_map("// only a comment\n").is_empty());
    let entries = compile_and_map("fn a(): void { return; }\n\nfn b(): void { return; }\n");
    assert_eq!(entries.len(), 2);
    assert_eq!(entries[0].js_line, 1);
    assert_eq!(entries[1].js_line, 4);
    assert_eq!(entries[0].selvr_line, 1);
    assert_eq!(entries[1].selvr_line, 3);
}

#[test]
fn source_map_vlq_segments() {
    let mut sm = SourceMap::new("o.js", &["i.self"]);
    sm.add_mapping(Mapping { gen_col: 0, src_file: Some(0), src_line: Some(0), src_col: Some(0), name: None });
    assert_eq!(sm.to_json(), r#"{"version":3,"file":"o.js","sources":["i.self"],"mappings":"AAAA"}"#);
    sm.add_mapping(Mapping { gen_col: 5, src_file: Some(0), src_line: Some(1), src_col: Some(4), name: Some(2) });
    sm.new_line();
    sm.add_mapping(Mapping { gen_col: 2, src_file: None, src_line: None, src_col: None, name: None });
    sm.add_mapping(Mapping { gen_col: 1, src_file: Some(0), src_line: Some(0), src_col: Some(20), name: None });
    assert_eq!(
        sm.to_json(),
        r#"{"version":3,"file":"o.js","sources":["i.self"],"mappings":"AAAA,KACIE;E,DADgB"}"#
    );
}

#[test]
fn formatter_keeps_grouping_parentheses() {
    let f = Formatter::new();
    let out = f.format_src("fn f(a: i32, b: i32, c: i32): i32 {\n    return (a - b) * c;\n}\n").unwrap();
    assert!(out.contains("return (a - b) * c;"));
    let out2 = f.format_src("fn g(a: i32, b: i32, c: i32): i32 {\n    return a - (b - c);\n}\n").unwrap();
    assert!(out2.contains("return a - (b - c);"));
    let out3 = f.format_src("fn h(a: i32, b: i32, c: i32): i32 {\n    return a - b - c * 2;\n}\n").unwrap();
    assert!(out3.contains("return a - b - c * 2;"));
}

#[test]
fn formatter_round_trips_template_literal() {
    let f = Formatter::new();
    let out = f.format_src("fn greet(name: string): string {\n    return `hi ${name}, bye ${name}!`;\n}\n").unwrap();
    assert!(out.contains("return `hi ${name}, bye ${name}!`;"));
}

#[test]
fn formatter_separates_items_by_one_blank_line() {
    let f = Formatter::new();
    assert_eq!(
        f.format_src("fn a(): void { return; }\nfn b(): void { return; }").unwrap(),
        "fn a(): void {\n    return;\n}\n\nfn b(): void {\n    return;\n}\n"
    );
}
