//! The debug adapter's state machine: each request, with what the
//! transport decoded of its arguments, gives the messages to send back.
//!
//! Functions a source map places at runtime `wasm` are the ones the
//! targeting pass routes to WebAssembly.

use vstd::prelude::*;
use vstd::string::StringSliceAdditionalSpecFns;
use crate::ast::{Module, Item};
use crate::lexer::{Lexer, lex_tokens, tokens_view};
use crate::parser::{Parser, lemma_without_trivia_only_eof};
use crate::ir::ir::Target;
use crate::target::target::{TargetMap, FnTargetV};
use crate::lint::diag::newlines;
use crate::lsp::hover::{target_analysis, record_named, recs_of};
use crate::text::{string_of, str_eq};
use crate::dap::protocol::{
    DapArguments, DapRequest, DapBody, DapResponse, DapEvent, DapMessage, Capabilities, DapSource,
    Breakpoint, StackFrame, Scope, Variable, Thread, same_opt,
};

verus! {

/// A mapping from one source line to the compiled JS line.
#[derive(Debug, Clone, Copy)]
pub struct SourceMapEntry {
    pub selvr_line: u64,
    pub js_line: u64,
    /// "js" or "wasm".
    pub runtime: &'static str,
}

pub struct Adapter {
    seq: u64,
    bp_id_gen: u64,
    breakpoints: Vec<(String, u64)>,
    source_maps: Vec<(String, Vec<SourceMapEntry>)>,
    launched: bool,
    program: Option<String>,
    threads: Vec<Thread>,
}

/// The breakpoints other than those in `path`.
pub open spec fn without_path(bs: Seq<(Seq<char>, u64)>, path: Seq<char>) -> Seq<(Seq<char>, u64)>
    decreases bs.len(),
{
    if bs.len() == 0 {
        seq![]
    } else {
        without_path(bs.drop_last(), path) + if bs.last().0 == path {
            Seq::<(Seq<char>, u64)>::empty()
        } else {
            seq![bs.last()]
        }
    }
}

/// The sequence number a message was sent under.
pub open spec fn msg_seq(m: DapMessage) -> u64 {
    match m {
        DapMessage::Request(r) => r.seq,
        DapMessage::Response(r) => r.seq,
        DapMessage::Event(e) => e.seq,
    }
}

/// `m` is a successful response to request `rs`, command `cmd`.
pub open spec fn ok_response(m: DapMessage, rs: u64, cmd: Seq<char>) -> bool {
    m matches DapMessage::Response(r) && r.request_seq == rs && r.success && r.command@ == cmd && r.message is None
}

/// `m` is a failed response to request `rs`, command `cmd`, saying `msg`.
pub open spec fn err_response(m: DapMessage, rs: u64, cmd: Seq<char>, msg: Seq<char>) -> bool {
    &&& m matches DapMessage::Response(r)
    &&& r.request_seq == rs
    &&& !r.success
    &&& r.command@ == cmd
    &&& r.message matches Some(t) && t@ == msg
    &&& r.body is None
}

/// `m` is the event `name`.
pub open spec fn event_named(m: DapMessage, name: Seq<char>) -> bool {
    m matches DapMessage::Event(e) && e.event@ == name
}

/// What `m` carries.
pub open spec fn body_of(m: DapMessage) -> Option<DapBody> {
    match m {
        DapMessage::Request(_) => None,
        DapMessage::Response(r) => r.body,
        DapMessage::Event(e) => e.body,
    }
}

/// A `stopped` body for `reason` on thread 1, all threads stopped.
pub open spec fn stopped_for(b: Option<DapBody>, reason: Seq<char>) -> bool {
    b matches Some(DapBody::Stopped { reason: r, thread_id, all_threads_stopped }) && r@ == reason && thread_id == 1
        && all_threads_stopped
}

/// A `continued` body for thread 1, all threads continued.
pub open spec fn continued_all(b: Option<DapBody>) -> bool {
    b == Some(DapBody::Continued { thread_id: 1, all_threads_continued: true })
}

/// The capabilities the adapter announces.
pub open spec fn announced(c: Capabilities) -> bool {
    c == Capabilities {
        supports_configuration_done_request: true,
        supports_evaluate_for_hovers: false,
        supports_set_variable: false,
        supports_terminate_request: true,
        supports_loaded_sources_request: false,
        supports_breakpoint_locations_request: true,
    }
}

/// The path a `setBreakpoints` request names, empty where it names none.
pub open spec fn path_of(s: DapSource) -> Seq<char> {
    match s.path {
        Some(p) => p@,
        None => seq![],
    }
}

/// `v` are the breakpoints set for `lines` in `src`, numbered from `first`.
pub open spec fn breakpoints_set(v: Seq<Breakpoint>, src: DapSource, lines: Seq<u64>, first: u64) -> bool {
    &&& v.len() == lines.len()
    &&& forall|i: int|
        0 <= i < v.len() ==> {
            &&& (#[trigger] v[i]).id == first + i
            &&& v[i].verified
            &&& v[i].source matches Some(s) && src.same(s)
            &&& v[i].line == Some(lines[i])
        }
}

/// The runtime a function named `name` is placed at.
pub open spec fn runtime_of(recs: Option<Seq<(Seq<char>, FnTargetV)>>, name: Seq<char>) -> Seq<char> {
    match recs {
        Some(es) => match record_named(es, name) {
            Some(r) => if r.target == Target::Wasm { "wasm"@ } else { "js"@ },
            None => "js"@,
        },
        None => "js"@,
    }
}

/// The functions among `items`, in order.
pub open spec fn fn_items(items: Seq<Item>) -> Seq<crate::ast::FnDef>
    decreases items.len(),
{
    if items.len() == 0 {
        seq![]
    } else {
        fn_items(items.drop_last()) + match items.last() {
            Item::FnDef(f) => seq![f],
            _ => seq![],
        }
    }
}

/// The source line (1-based) of byte `off` of `b`, clamped to its end.
pub open spec fn line_of(b: Seq<u8>, off: int) -> int {
    newlines(b.subrange(0, if off < b.len() { off } else { b.len() as int })) as int + 1
}

proof fn lemma_newlines_le(b: Seq<u8>)
    ensures
        newlines(b) <= b.len(),
    decreases b.len(),
{
    if b.len() > 0 {
        lemma_newlines_le(b.drop_last());
    }
}

/// The 1-based line of byte `offset` of `src` (clamped to its end).
fn line_at(src: &str, offset: usize) -> (r: u64)
    requires
        src.spec_bytes().len() < u64::MAX,
    ensures
        r as int == line_of(src.spec_bytes(), offset as int),
{
    let bytes = src.as_bytes();
    let k = if offset < bytes.len() { offset } else { bytes.len() };
    let mut n: u64 = 0;
    let mut i: usize = 0;
    while i < k
        invariant
            k <= bytes@.len(),
            bytes@.len() < u64::MAX,
            i <= k,
            n as int == newlines(bytes@.subrange(0, i as int)),
        decreases k - i,
    {
        proof {
            assert(bytes@.subrange(0, i + 1).drop_last() =~= bytes@.subrange(0, i as int));
            lemma_newlines_le(bytes@.subrange(0, i as int));
        }
        if bytes[i] == 10u8 {
            n = n + 1;
        }
        i = i + 1;
    }
    proof {
        lemma_newlines_le(bytes@.subrange(0, k as int));
    }
    n + 1
}

/// The source map of a module of `src`: one entry per function, in order,
/// at the line its span starts on, with JS lines 1, 4, 7, ... and the
/// runtime `map` places it at.
pub fn build_source_map(src: &str, module: &Module, map: Option<&TargetMap>) -> (r: Vec<SourceMapEntry>)
    requires
        src.spec_bytes().len() < u64::MAX,
        3 * module.items@.len() < u64::MAX,
        map matches Some(m) ==> m.wf(),
    ensures
        r@.len() == fn_items(module.items@).len(),
        forall|k: int|
            0 <= k < r@.len() ==> {
                let f = fn_items(module.items@)[k];
                &&& (#[trigger] r@[k]).selvr_line as int == line_of(src.spec_bytes(), f.span.start as int)
                &&& r@[k].js_line == 1 + 3 * k
                &&& r@[k].runtime@ == runtime_of(recs_of(map), f.name@)
            },
{
    let mut out: Vec<SourceMapEntry> = Vec::new();
    let mut js_line: u64 = 1;
    let mut i: usize = 0;
    while i < module.items.len()
        invariant
            i <= module.items@.len(),
            3 * module.items@.len() < u64::MAX,
            src.spec_bytes().len() < u64::MAX,
            map matches Some(m) ==> m.wf(),
            out@.len() == fn_items(module.items@.subrange(0, i as int)).len(),
            out@.len() <= i,
            js_line == 1 + 3 * out@.len(),
            forall|k: int|
                0 <= k < out@.len() ==> {
                    let f = fn_items(module.items@.subrange(0, i as int))[k];
                    &&& (#[trigger] out@[k]).selvr_line as int == line_of(src.spec_bytes(), f.span.start as int)
                    &&& out@[k].js_line == 1 + 3 * k
                    &&& out@[k].runtime@ == runtime_of(recs_of(map), f.name@)
                },
        decreases module.items.len() - i,
    {
        let ghost before = out@;
        let ghost sub = module.items@.subrange(0, i + 1);
        proof {
            assert(sub.drop_last() =~= module.items@.subrange(0, i as int));
            assert(sub.last() == module.items@[i as int]);
        }
        if let Item::FnDef(f) = &module.items[i] {
            let selvr_line = line_at(src, f.span.start);
            let runtime: &'static str = match map {
                Some(m) => match m.get(f.name.as_str()) {
                    Some(rec) => {
                        proof {
                            let j = choose|j: int| 0 <= j < m.entries().len() && m.entries()[j].0 == f.name@ && rec@ == m.entries()[j].1;
                            crate::lsp::hover::lemma_record_named(m.entries(), f.name@, j);
                        }
                        if rec.target == Target::Wasm {
                            "wasm"
                        } else {
                            "js"
                        }
                    },
                    None => {
                        proof {
                            crate::lsp::hover::lemma_record_absent(m.entries(), f.name@);
                        }
                        "js"
                    },
                },
                None => "js",
            };
            out.push(SourceMapEntry { selvr_line, js_line, runtime });
            js_line = js_line + 3;
            proof {
                assert(fn_items(sub) == fn_items(sub.drop_last()).push(*f));
                assert forall|k: int| 0 <= k < out@.len() implies {
                    let g = fn_items(sub)[k];
                    &&& (#[trigger] out@[k]).selvr_line as int == line_of(src.spec_bytes(), g.span.start as int)
                    &&& out@[k].js_line == 1 + 3 * k
                    &&& out@[k].runtime@ == runtime_of(recs_of(map), g.name@)
                } by {
                    if k < before.len() {
                        assert(out@[k] == before[k]);
                    }
                }
            }
        } else {
            proof {
                assert(fn_items(sub) == fn_items(sub.drop_last()));
            }
        }
        i = i + 1;
    }
    assert(module.items@.subrange(0, i as int) =~= module.items@);
    out
}

/// The source map of the program `src` (see [`build_source_map`]).
pub fn compile_and_map(src: &str) -> (r: Vec<SourceMapEntry>)
    requires
        4 * src@.len() < usize::MAX,
        src.spec_bytes().len() < u64::MAX,
    ensures
        forall|k: int| 0 <= k < r@.len() ==> (#[trigger] r@[k]).js_line == 1 + 3 * k,
        (forall|i: int|
            0 <= i < lex_tokens(src@, 0).0.len() ==> (#[trigger] lex_tokens(src@, 0).0[i]).node.is_trivia_spec()
                || lex_tokens(src@, 0).0[i].node is Eof) ==> r@.len() == 0,
{
    let (tokens, _) = Lexer::new(src, 0).tokenize();
    proof {
        let lt = lex_tokens(src@, 0).0;
        if forall|i: int| 0 <= i < lt.len() ==> (#[trigger] lt[i]).node.is_trivia_spec() || lt[i].node is Eof {
            assert forall|i: int| 0 <= i < tokens@.len() implies (#[trigger] tokens@[i]).node.is_trivia_spec()
                || tokens@[i].node is Eof by {
                assert(tokens_view(tokens@)[i].node == tokens@[i].node@);
                assert(lt[i].node == tokens@[i].node@);
            }
            lemma_without_trivia_only_eof(tokens@);
        }
    }
    let (module, _) = Parser::new(tokens, 0).parse();
    assert(module.items@.len() == 0 ==> fn_items(module.items@).len() == 0);
    if module.items.len() as u64 >= 0x5555_5555_5555_5555u64 {
        return Vec::new();
    }
    let map = target_analysis(&module);
    match &map {
        Some(m) => build_source_map(src, &module, Some(m)),
        None => build_source_map(src, &module, None),
    }
}

/// `b` is `a` but for the sequence counter.
pub open spec fn same_state(a: Adapter, b: Adapter) -> bool {
    &&& b.next_bp_spec() == a.next_bp_spec()
    &&& b.breakpoints_spec() == a.breakpoints_spec()
    &&& b.map_paths() == a.map_paths()
    &&& b.launched_spec() == a.launched_spec()
    &&& b.program_spec() == a.program_spec()
}

/// The lines of the breakpoints asked for.
pub open spec fn lines_of(bs: Seq<crate::dap::protocol::SourceBreakpoint>) -> Seq<u64> {
    bs.map_values(|b: crate::dap::protocol::SourceBreakpoint| b.line)
}

/// The one frame a stack trace shows: `main` at line 1 of the program
/// (`unknown.self` before a launch), on the JS runtime.
pub open spec fn main_frame(f: StackFrame, program: Option<Seq<char>>) -> bool {
    let p = match program {
        Some(p) => p,
        None => "unknown.self"@,
    };
    &&& f.id == 1
    &&& f.name@ == "main"@
    &&& f.source is Some
    &&& f.source->0.name is Some && f.source->0.name->0@ == p
    &&& f.source->0.path is Some && f.source->0.path->0@ == p
    &&& f.source->0.source_reference is None
    &&& f.line == 1
    &&& f.column == 0
    &&& f.presentation_hint matches Some(h) && h@ == "js"@
}

/// The answer to a `launch` with `args` and program text `source`.
pub open spec fn launch_answered(
    a: Adapter,
    b: Adapter,
    rs: u64,
    args: crate::dap::protocol::LaunchArgs,
    source: Option<String>,
    out: Seq<DapMessage>,
) -> bool {
    &&& b.program_spec() == Some(args.program@)
    &&& b.launched_spec()
    &&& b.next_bp_spec() == a.next_bp_spec()
    &&& b.breakpoints_spec() == a.breakpoints_spec()
    &&& (source is Some ==> has_map(b.map_paths(), args.program@))
    &&& (source is None ==> b.map_paths() == a.map_paths())
    &&& ok_response(out[0], rs, "launch"@)
    &&& body_of(out[0]) == Some(DapBody::Empty)
    &&& if args.stop_on_entry {
        &&& out.len() == 2
        &&& event_named(out[1], "stopped"@)
        &&& stopped_for(body_of(out[1]), "entry"@)
    } else {
        &&& out.len() == 4
        &&& event_named(out[1], "continued"@)
        &&& continued_all(body_of(out[1]))
        &&& event_named(out[2], "exited"@)
        &&& body_of(out[2]) == Some(DapBody::Exited { exit_code: 0 })
        &&& event_named(out[3], "terminated"@)
        &&& body_of(out[3]) == Some(DapBody::Empty)
    }
}

/// The answer to request `req` in state `a`: the messages `out`, and the
/// state `b` after it.
pub open spec fn answered(a: Adapter, b: Adapter, req: DapRequest, out: Seq<DapMessage>) -> bool {
    let c = req.command@;
    let rs = req.seq;
    if c == "initialize"@ {
        &&& same_state(a, b)
        &&& out.len() == 2
        &&& ok_response(out[0], rs, c)
        &&& body_of(out[0]) matches Some(DapBody::Capabilities(caps)) && announced(caps)
        &&& event_named(out[1], "initialized"@)
        &&& body_of(out[1]) is None
    } else if c == "launch"@ {
        match req.arguments {
            DapArguments::Launch { args, source } => launch_answered(a, b, rs, args, source, out),
            DapArguments::Invalid(m) => same_state(a, b) && out.len() == 1 && err_response(out[0], rs, c, m@),
            _ => same_state(a, b) && out.len() == 1 && err_response(out[0], rs, c, "invalid launch arguments"@),
        }
    } else if c == "setBreakpoints"@ {
        match req.arguments {
            DapArguments::SetBreakpoints(sb) => {
                &&& b.next_bp_spec() == a.next_bp_spec() + sb.breakpoints@.len()
                &&& b.breakpoints_spec() == without_path(a.breakpoints_spec(), path_of(sb.source)) + lines_of(
                    sb.breakpoints@,
                ).map_values(|l: u64| (path_of(sb.source), l))
                &&& b.map_paths() == a.map_paths()
                &&& b.launched_spec() == a.launched_spec()
                &&& b.program_spec() == a.program_spec()
                &&& out.len() == 1
                &&& ok_response(out[0], rs, c)
                &&& body_of(out[0]) matches Some(DapBody::Breakpoints(v)) && breakpoints_set(
                    v@,
                    sb.source,
                    lines_of(sb.breakpoints@),
                    a.next_bp_spec(),
                )
            },
            DapArguments::Invalid(m) => same_state(a, b) && out.len() == 1 && err_response(out[0], rs, c, m@),
            _ => same_state(a, b) && out.len() == 1 && err_response(out[0], rs, c, "invalid setBreakpoints arguments"@),
        }
    } else {
        &&& same_state(a, b)
        &&& if c == "configurationDone"@ {
            out.len() == 1 && ok_response(out[0], rs, c) && body_of(out[0]) == Some(DapBody::Empty)
        } else if c == "threads"@ {
            &&& out.len() == 1
            &&& ok_response(out[0], rs, c)
            &&& body_of(out[0]) matches Some(DapBody::Threads(v)) && main_thread(v@)
        } else if c == "stackTrace"@ {
            &&& out.len() == 1
            &&& ok_response(out[0], rs, c)
            &&& body_of(out[0]) matches Some(DapBody::StackTrace { frames, total_frames }) && frames@.len() == 1
                && total_frames == 1 && main_frame(frames@[0], a.program_spec())
        } else if c == "scopes"@ {
            &&& out.len() == 1
            &&& ok_response(out[0], rs, c)
            &&& body_of(out[0]) matches Some(DapBody::Scopes(v)) && v@.len() == 2 && v@[0].name@ == "Locals"@
                && v@[0].variables_reference == 1 && !v@[0].expensive && v@[1].name@ == "Globals"@
                && v@[1].variables_reference == 2 && !v@[1].expensive
        } else if c == "variables"@ {
            &&& out.len() == 1
            &&& ok_response(out[0], rs, c)
            &&& body_of(out[0]) matches Some(DapBody::Variables(v)) && v@.len() == 1 && v@[0].name@ == "(selvr-dap)"@
                && v@[0].value@ == "attach Node.js --inspect for live variables"@ && v@[0].var_type is None
                && v@[0].variables_reference == 0
        } else if c == "continue"@ {
            &&& out.len() == 2
            &&& ok_response(out[0], rs, c)
            &&& body_of(out[0]) == Some(DapBody::AllThreadsContinued)
            &&& event_named(out[1], "continued"@)
            &&& continued_all(body_of(out[1]))
        } else if c == "next"@ || c == "stepIn"@ || c == "stepOut"@ {
            &&& out.len() == 2
            &&& ok_response(out[0], rs, c)
            &&& body_of(out[0]) == Some(DapBody::Empty)
            &&& event_named(out[1], "stopped"@)
            &&& stopped_for(body_of(out[1]), "step"@)
        } else if c == "terminate"@ {
            &&& out.len() == 2
            &&& ok_response(out[0], rs, c)
            &&& body_of(out[0]) == Some(DapBody::Empty)
            &&& event_named(out[1], "terminated"@)
            &&& body_of(out[1]) == Some(DapBody::Empty)
        } else if c == "disconnect"@ {
            out.len() == 1 && ok_response(out[0], rs, c) && body_of(out[0]) == Some(DapBody::Empty)
        } else {
            out.len() == 1 && err_response(out[0], rs, c, "unsupported command"@)
        }
    }
}

/// The name of the adapter's one thread.
pub open spec fn main_thread(t: Seq<Thread>) -> bool {
    t.len() == 1 && t[0].id == 1 && t[0].name@ == "main (js)"@
}

/// Whether `es` has a source map stored under `path`.
pub open spec fn has_map(es: Seq<Seq<char>>, path: Seq<char>) -> bool {
    exists|i: int| 0 <= i < es.len() && es[i] == path
}

impl Adapter {
    /// The next message's sequence number.
    pub closed spec fn seq_spec(&self) -> u64 {
        self.seq
    }

    /// The next breakpoint's id.
    pub closed spec fn next_bp_spec(&self) -> u64 {
        self.bp_id_gen
    }

    /// The breakpoints set: (source path, line).
    pub closed spec fn breakpoints_spec(&self) -> Seq<(Seq<char>, u64)> {
        self.breakpoints@.map_values(|b: (String, u64)| (b.0@, b.1))
    }

    /// The paths source maps are stored under.
    pub closed spec fn map_paths(&self) -> Seq<Seq<char>> {
        self.source_maps@.map_values(|e: (String, Vec<SourceMapEntry>)| e.0@)
    }

    pub closed spec fn launched_spec(&self) -> bool {
        self.launched
    }

    /// The program launched, if any.
    pub closed spec fn program_spec(&self) -> Option<Seq<char>> {
        match self.program {
            Some(p) => Some(p@),
            None => None,
        }
    }

    pub closed spec fn wf(&self) -> bool {
        main_thread(self.threads@)
    }

    pub fn new() -> (a: Adapter)
        ensures
            a.wf(),
            a.seq_spec() == 1,
            a.next_bp_spec() == 1,
            a.breakpoints_spec().len() == 0,
            a.map_paths().len() == 0,
            !a.launched_spec(),
            a.program_spec() is None,
    {
        let mut threads: Vec<Thread> = Vec::new();
        threads.push(Thread { id: 1, name: string_of("main (js)") });
        let a = Adapter {
            seq: 1,
            bp_id_gen: 1,
            breakpoints: Vec::new(),
            source_maps: Vec::new(),
            launched: false,
            program: None,
            threads,
        };
        assert(a.breakpoints_spec() =~= Seq::<(Seq<char>, u64)>::empty());
        assert(a.map_paths() =~= Seq::<Seq<char>>::empty());
        a
    }

    /// The next message's sequence number.
    pub fn seq(&self) -> (r: u64)
        ensures
            r == self.seq_spec(),
    {
        self.seq
    }

    /// The id the next breakpoint gets.
    pub fn next_breakpoint_id(&self) -> (r: u64)
        ensures
            r == self.next_bp_spec(),
    {
        self.bp_id_gen
    }

    fn next_seq(&mut self) -> (s: u64)
        requires
            old(self).seq < u64::MAX,
        ensures
            s == old(self).seq,
            final(self).seq == old(self).seq + 1,
            final(self).bp_id_gen == old(self).bp_id_gen,
            final(self).breakpoints == old(self).breakpoints,
            final(self).source_maps == old(self).source_maps,
            final(self).launched == old(self).launched,
            final(self).program == old(self).program,
            final(self).threads == old(self).threads,
    {
        let s = self.seq;
        self.seq = self.seq + 1;
        s
    }

    fn copy_threads(&self) -> (r: Vec<Thread>)
        ensures
            r@.len() == self.threads@.len(),
            forall|i: int| 0 <= i < r@.len() ==> (#[trigger] r@[i]).id == self.threads@[i].id && r@[i].name@ == self.threads@[i].name@,
    {
        let mut r: Vec<Thread> = Vec::new();
        let mut i: usize = 0;
        while i < self.threads.len()
            invariant
                i <= self.threads@.len(),
                r@.len() == i,
                forall|k: int| 0 <= k < i ==> (#[trigger] r@[k]).id == self.threads@[k].id && r@[k].name@ == self.threads@[k].name@,
            decreases self.threads.len() - i,
        {
            r.push(Thread { id: self.threads[i].id, name: string_of(self.threads[i].name.as_str()) });
            i = i + 1;
        }
        r
    }

    /// Drops the breakpoints of `path`, then sets one for each line of
    /// `lines`, numbered on from the next id.
    fn reset_breakpoints(&mut self, src: &DapSource, lines: &Vec<u64>) -> (v: Vec<Breakpoint>)
        requires
            old(self).bp_id_gen + lines@.len() <= u64::MAX,
        ensures
            breakpoints_set(v@, *src, lines@, old(self).bp_id_gen),
            final(self).bp_id_gen == old(self).bp_id_gen + lines@.len(),
            final(self).breakpoints_spec() == without_path(old(self).breakpoints_spec(), path_of(*src)) + lines@.map_values(
                |l: u64| (path_of(*src), l),
            ),
            final(self).seq == old(self).seq,
            final(self).source_maps == old(self).source_maps,
            final(self).launched == old(self).launched,
            final(self).program == old(self).program,
            final(self).threads == old(self).threads,
    {
        let path = match &src.path {
            Some(p) => string_of(p.as_str()),
            None => String::new(),
        };
        let ghost bs = self.breakpoints_spec();
        let mut kept: Vec<(String, u64)> = Vec::new();
        let mut i: usize = 0;
        while i < self.breakpoints.len()
            invariant
                i <= self.breakpoints@.len(),
                bs == self.breakpoints_spec(),
                path@ == path_of(*src),
                kept@.map_values(|b: (String, u64)| (b.0@, b.1)) == without_path(bs.subrange(0, i as int), path@),
            decreases self.breakpoints.len() - i,
        {
            let ghost before = kept@;
            proof {
                let sub = bs.subrange(0, i + 1);
                assert(sub.drop_last() =~= bs.subrange(0, i as int));
                assert(sub.last() == bs[i as int]);
            }
            if !str_eq(self.breakpoints[i].0.as_str(), path.as_str()) {
                kept.push((string_of(self.breakpoints[i].0.as_str()), self.breakpoints[i].1));
                assert(kept@.map_values(|b: (String, u64)| (b.0@, b.1)) =~= before.map_values(|b: (String, u64)| (b.0@, b.1)).push(bs[i as int]));
            }
            i = i + 1;
        }
        assert(bs.subrange(0, i as int) =~= bs);
        let ghost base = kept@.map_values(|b: (String, u64)| (b.0@, b.1));
        let mut v: Vec<Breakpoint> = Vec::new();
        let mut j: usize = 0;
        while j < lines.len()
            invariant
                j <= lines@.len(),
                path@ == path_of(*src),
                old(self).bp_id_gen + lines@.len() <= u64::MAX,
                self.bp_id_gen == old(self).bp_id_gen + j,
                self.seq == old(self).seq,
                self.source_maps == old(self).source_maps,
                self.launched == old(self).launched,
                self.program == old(self).program,
                self.threads == old(self).threads,
                kept@.map_values(|b: (String, u64)| (b.0@, b.1)) == base + lines@.subrange(0, j as int).map_values(|l: u64| (path@, l)),
                v@.len() == j,
                forall|k: int|
                    0 <= k < j ==> {
                        &&& (#[trigger] v@[k]).id == old(self).bp_id_gen + k
                        &&& v@[k].verified
                        &&& v@[k].source matches Some(s) && src.same(s)
                        &&& v@[k].line == Some(lines@[k])
                    },
            decreases lines.len() - j,
        {
            let id = self.bp_id_gen;
            self.bp_id_gen = self.bp_id_gen + 1;
            let ghost before = kept@;
            kept.push((string_of(path.as_str()), lines[j]));
            assert(kept@.map_values(|b: (String, u64)| (b.0@, b.1)) =~= before.map_values(|b: (String, u64)| (b.0@, b.1)).push((path@, lines@[j as int])));
            assert(lines@.subrange(0, j + 1).map_values(|l: u64| (path@, l)) =~= lines@.subrange(0, j as int).map_values(|l: u64| (path@, l)).push((path@, lines@[j as int])));
            v.push(Breakpoint { id, verified: true, source: Some(src.duplicate()), line: Some(lines[j]) });
            j = j + 1;
        }
        assert(lines@.subrange(0, j as int) =~= lines@);
        self.breakpoints = kept;
        v
    }

    /// Sends `m` under the next sequence number.
    fn send(&mut self, m: DapMessage, out: &mut Vec<DapMessage>)
        requires
            old(self).seq < u64::MAX,
            msg_seq(m) == old(self).seq,
        ensures
            final(out)@ == old(out)@.push(m),
            final(self).seq == old(self).seq + 1,
            final(self).bp_id_gen == old(self).bp_id_gen,
            final(self).breakpoints == old(self).breakpoints,
            final(self).source_maps == old(self).source_maps,
            final(self).launched == old(self).launched,
            final(self).program == old(self).program,
            final(self).threads == old(self).threads,
    {
        self.seq = self.seq + 1;
        out.push(m);
    }

    fn respond_ok(&mut self, rs: u64, cmd: &str, body: DapBody, out: &mut Vec<DapMessage>)
        requires
            old(self).seq < u64::MAX,
        ensures
            final(out)@.len() == old(out)@.len() + 1,
            final(out)@.subrange(0, old(out)@.len() as int) == old(out)@,
            msg_seq(final(out)@.last()) == old(self).seq,
            ok_response(final(out)@.last(), rs, cmd@),
            body_of(final(out)@.last()) == Some(body),
            final(self).seq == old(self).seq + 1,
            final(self).bp_id_gen == old(self).bp_id_gen,
            final(self).breakpoints == old(self).breakpoints,
            final(self).source_maps == old(self).source_maps,
            final(self).launched == old(self).launched,
            final(self).program == old(self).program,
            final(self).threads == old(self).threads,
    {
        let m = DapMessage::Response(DapResponse::ok(self.seq, rs, cmd, body));
        self.send(m, out);
        assert(out@.subrange(0, out@.len() - 1) =~= old(out)@);
    }

    fn respond_err(&mut self, rs: u64, cmd: &str, msg: &str, out: &mut Vec<DapMessage>)
        requires
            old(self).seq < u64::MAX,
        ensures
            final(out)@.len() == old(out)@.len() + 1,
            final(out)@.subrange(0, old(out)@.len() as int) == old(out)@,
            msg_seq(final(out)@.last()) == old(self).seq,
            err_response(final(out)@.last(), rs, cmd@, msg@),
            final(self).seq == old(self).seq + 1,
            final(self).bp_id_gen == old(self).bp_id_gen,
            final(self).breakpoints == old(self).breakpoints,
            final(self).source_maps == old(self).source_maps,
            final(self).launched == old(self).launched,
            final(self).program == old(self).program,
            final(self).threads == old(self).threads,
    {
        let m = DapMessage::Response(DapResponse::err(self.seq, rs, cmd, msg));
        self.send(m, out);
        assert(out@.subrange(0, out@.len() - 1) =~= old(out)@);
    }

    fn emit(&mut self, event: &str, body: Option<DapBody>, out: &mut Vec<DapMessage>)
        requires
            old(self).seq < u64::MAX,
        ensures
            final(out)@.len() == old(out)@.len() + 1,
            final(out)@.subrange(0, old(out)@.len() as int) == old(out)@,
            msg_seq(final(out)@.last()) == old(self).seq,
            event_named(final(out)@.last(), event@),
            body_of(final(out)@.last()) == body,
            final(self).seq == old(self).seq + 1,
            final(self).bp_id_gen == old(self).bp_id_gen,
            final(self).breakpoints == old(self).breakpoints,
            final(self).source_maps == old(self).source_maps,
            final(self).launched == old(self).launched,
            final(self).program == old(self).program,
            final(self).threads == old(self).threads,
    {
        let m = DapMessage::Event(DapEvent { seq: self.seq, event: string_of(event), body });
        self.send(m, out);
        assert(out@.subrange(0, out@.len() - 1) =~= old(out)@);
    }

    /// Stores `entries` as the source map of `path`, in place of an
    /// earlier one.
    fn store_map(&mut self, path: &str, entries: Vec<SourceMapEntry>)
        ensures
            has_map(final(self).map_paths(), path@),
            final(self).seq == old(self).seq,
            final(self).bp_id_gen == old(self).bp_id_gen,
            final(self).breakpoints == old(self).breakpoints,
            final(self).launched == old(self).launched,
            final(self).program == old(self).program,
            final(self).threads == old(self).threads,
    {
        let mut i: usize = 0;
        while i < self.source_maps.len()
            invariant
                i <= self.source_maps@.len(),
                self.seq == old(self).seq,
                self.bp_id_gen == old(self).bp_id_gen,
                self.breakpoints == old(self).breakpoints,
                self.launched == old(self).launched,
                self.program == old(self).program,
                self.threads == old(self).threads,
            decreases self.source_maps.len() - i,
        {
            if str_eq(self.source_maps[i].0.as_str(), path) {
                self.source_maps[i].1 = entries;
                assert(self.map_paths()[i as int] == path@);
                return;
            }
            i = i + 1;
        }
        self.source_maps.push((string_of(path), entries));
        assert(self.map_paths()[self.source_maps@.len() - 1] == path@);
    }
}

/// The frame a stack trace shows for `program`.
fn frame_for(program: &Option<String>) -> (f: StackFrame)
    ensures
        main_frame(
            f,
            match *program {
                Some(p) => Some(p@),
                None => None,
            },
        ),
{
    let p = match program {
        Some(p) => string_of(p.as_str()),
        None => string_of("unknown.self"),
    };
    StackFrame {
        id: 1,
        name: string_of("main"),
        source: Some(DapSource { name: Some(string_of(p.as_str())), path: Some(string_of(p.as_str())), source_reference: None }),
        line: 1,
        column: 0,
        presentation_hint: Some(string_of("js")),
    }
}


impl Adapter {
    /// Answers one request: the messages to send, numbered on from the
    /// adapter's sequence counter (see [`answered`]).
    pub fn handle(&mut self, req: &DapRequest) -> (out: Vec<DapMessage>)
        requires
            old(self).wf(),
            old(self).seq_spec() + 4 <= u64::MAX,
            req.arguments matches DapArguments::SetBreakpoints(sb) ==> old(self).next_bp_spec() + sb.breakpoints@.len()
                <= u64::MAX,
            req.arguments matches DapArguments::Launch { source: Some(t), .. } ==> 4 * t@.len() < usize::MAX,
        ensures
            final(self).wf(),
            final(self).seq_spec() == old(self).seq_spec() + out@.len(),
            forall|i: int| 0 <= i < out@.len() ==> msg_seq(#[trigger] out@[i]) == old(self).seq_spec() + i,
            answered(*old(self), *final(self), *req, out@),
    {
        let mut out: Vec<DapMessage> = Vec::new();
        let cmd = req.command.as_str();
        let rs = req.seq;
        if str_eq(cmd, "initialize") {
            let caps = Capabilities {
                supports_configuration_done_request: true,
                supports_evaluate_for_hovers: false,
                supports_set_variable: false,
                supports_terminate_request: true,
                supports_loaded_sources_request: false,
                supports_breakpoint_locations_request: true,
            };
            self.respond_ok(rs, "initialize", DapBody::Capabilities(caps), &mut out);
            self.emit("initialized", None, &mut out);
        } else if str_eq(cmd, "launch") {
            match &req.arguments {
                DapArguments::Launch { args, source } => {
                    self.program = Some(string_of(args.program.as_str()));
                    match source {
                        Some(text) => {
                            let t = text.as_str();
                            let entries = if (t.as_bytes().len() as u64) < u64::MAX {
                                compile_and_map(t)
                            } else {
                                Vec::new()
                            };
                            self.store_map(args.program.as_str(), entries);
                        },
                        None => {},
                    }
                    self.launched = true;
                    self.respond_ok(rs, "launch", DapBody::Empty, &mut out);
                    if args.stop_on_entry {
                        let body = DapBody::Stopped { reason: string_of("entry"), thread_id: 1, all_threads_stopped: true };
                        self.emit("stopped", Some(body), &mut out);
                    } else {
                        let body = DapBody::Continued { thread_id: 1, all_threads_continued: true };
                        self.emit("continued", Some(body), &mut out);
                        self.emit("exited", Some(DapBody::Exited { exit_code: 0 }), &mut out);
                        self.emit("terminated", Some(DapBody::Empty), &mut out);
                    }
                },
                DapArguments::Invalid(m) => self.respond_err(rs, "launch", m.as_str(), &mut out),
                _ => self.respond_err(rs, "launch", "invalid launch arguments", &mut out),
            }
        } else if str_eq(cmd, "setBreakpoints") {
            match &req.arguments {
                DapArguments::SetBreakpoints(sb) => {
                    let mut lines: Vec<u64> = Vec::new();
                    let mut i: usize = 0;
                    while i < sb.breakpoints.len()
                        invariant
                            i <= sb.breakpoints@.len(),
                            lines@ == lines_of(sb.breakpoints@.subrange(0, i as int)),
                        decreases sb.breakpoints.len() - i,
                    {
                        lines.push(sb.breakpoints[i].line);
                        assert(lines_of(sb.breakpoints@.subrange(0, i + 1)) =~= lines_of(sb.breakpoints@.subrange(0, i as int)).push(sb.breakpoints@[i as int].line));
                        i = i + 1;
                    }
                    assert(sb.breakpoints@.subrange(0, i as int) =~= sb.breakpoints@);
                    let v = self.reset_breakpoints(&sb.source, &lines);
                    self.respond_ok(rs, "setBreakpoints", DapBody::Breakpoints(v), &mut out);
                },
                DapArguments::Invalid(m) => self.respond_err(rs, "setBreakpoints", m.as_str(), &mut out),
                _ => self.respond_err(rs, "setBreakpoints", "invalid setBreakpoints arguments", &mut out),
            }
        } else if str_eq(cmd, "configurationDone") {
            self.respond_ok(rs, "configurationDone", DapBody::Empty, &mut out);
        } else if str_eq(cmd, "threads") {
            let ts = self.copy_threads();
            assert(main_thread(ts@));

            self.respond_ok(rs, "threads", DapBody::Threads(ts), &mut out);

        } else if str_eq(cmd, "stackTrace") {
            let mut frames: Vec<StackFrame> = Vec::new();
            let f = frame_for(&self.program);
            frames.push(f);
            assert(frames@[0] == f);
            assert(main_frame(frames@[0], self.program_spec()));

            self.respond_ok(rs, "stackTrace", DapBody::StackTrace { frames, total_frames: 1 }, &mut out);
        } else if str_eq(cmd, "scopes") {
            let mut scopes: Vec<Scope> = Vec::new();
            scopes.push(Scope { name: string_of("Locals"), variables_reference: 1, expensive: false });
            scopes.push(Scope { name: string_of("Globals"), variables_reference: 2, expensive: false });
            self.respond_ok(rs, "scopes", DapBody::Scopes(scopes), &mut out);
        } else if str_eq(cmd, "variables") {
            let mut vars: Vec<Variable> = Vec::new();
            vars.push(Variable {
                name: string_of("(selvr-dap)"),
                value: string_of("attach Node.js --inspect for live variables"),
                var_type: None,
                variables_reference: 0,
            });
            self.respond_ok(rs, "variables", DapBody::Variables(vars), &mut out);
        } else if str_eq(cmd, "continue") {
            self.respond_ok(rs, "continue", DapBody::AllThreadsContinued, &mut out);
            let body = DapBody::Continued { thread_id: 1, all_threads_continued: true };
            self.emit("continued", Some(body), &mut out);
        } else if str_eq(cmd, "next") || str_eq(cmd, "stepIn") || str_eq(cmd, "stepOut") {
            self.respond_ok(rs, cmd, DapBody::Empty, &mut out);
            let body = DapBody::Stopped { reason: string_of("step"), thread_id: 1, all_threads_stopped: true };
            self.emit("stopped", Some(body), &mut out);
        } else if str_eq(cmd, "terminate") {
            self.respond_ok(rs, "terminate", DapBody::Empty, &mut out);
            self.emit("terminated", Some(DapBody::Empty), &mut out);
        } else if str_eq(cmd, "disconnect") {
            self.respond_ok(rs, "disconnect", DapBody::Empty, &mut out);
        } else {
            self.respond_err(rs, cmd, "unsupported command", &mut out);
        }
        out
    }
}

} // verus!
