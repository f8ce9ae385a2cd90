//! Debug-adapter messages and the bodies they carry, as plain values; the
//! wire form (JSON with `Content-Length` framing) is the transport's
//! business.

use vstd::prelude::*;
use crate::text::string_of;

verus! {

/// The arguments of a request, decoded for the commands that take any.
#[derive(Debug)]
pub enum DapArguments {
    /// No arguments that the adapter reads.
    Absent,
    /// `launch` arguments, with the program's text where it could be read.
    Launch { args: LaunchArgs, source: Option<String> },
    /// `setBreakpoints` arguments.
    SetBreakpoints(SetBreakpointsArgs),
    /// Arguments that did not decode, with the reason.
    Invalid(String),
}

#[derive(Debug)]
pub struct DapRequest {
    pub seq: u64,
    pub command: String,
    pub arguments: DapArguments,
}

/// What a response or an event carries.
#[derive(Debug)]
pub enum DapBody {
    /// `{}`
    Empty,
    Capabilities(Capabilities),
    Breakpoints(Vec<Breakpoint>),
    Threads(Vec<Thread>),
    StackTrace { frames: Vec<StackFrame>, total_frames: u64 },
    Scopes(Vec<Scope>),
    Variables(Vec<Variable>),
    /// `{ "allThreadsContinued": true }`
    AllThreadsContinued,
    Stopped { reason: String, thread_id: u64, all_threads_stopped: bool },
    Continued { thread_id: u64, all_threads_continued: bool },
    Exited { exit_code: i64 },
}

#[derive(Debug)]
pub struct DapResponse {
    pub seq: u64,
    pub request_seq: u64,
    pub success: bool,
    pub command: String,
    pub message: Option<String>,
    pub body: Option<DapBody>,
}

impl DapResponse {
    /// A successful response carrying `body`.
    pub fn ok(seq: u64, request_seq: u64, command: &str, body: DapBody) -> (r: DapResponse)
        ensures
            r.seq == seq,
            r.request_seq == request_seq,
            r.success,
            r.command@ == command@,
            r.message is None,
            r.body == Some(body),
    {
        DapResponse { seq, request_seq, success: true, command: string_of(command), message: None, body: Some(body) }
    }

    /// A failed response with message `msg`.
    pub fn err(seq: u64, request_seq: u64, command: &str, msg: &str) -> (r: DapResponse)
        ensures
            r.seq == seq,
            r.request_seq == request_seq,
            !r.success,
            r.command@ == command@,
            r.message matches Some(m) && m@ == msg@,
            r.body is None,
    {
        DapResponse {
            seq,
            request_seq,
            success: false,
            command: string_of(command),
            message: Some(string_of(msg)),
            body: None,
        }
    }
}

#[derive(Debug)]
pub struct DapEvent {
    pub seq: u64,
    pub event: String,
    pub body: Option<DapBody>,
}

impl DapEvent {
    /// The event `event` carrying `body`.
    pub fn new(seq: u64, event: &str, body: DapBody) -> (e: DapEvent)
        ensures
            e.seq == seq,
            e.event@ == event@,
            e.body == Some(body),
    {
        DapEvent { seq, event: string_of(event), body: Some(body) }
    }
}

/// A message of the protocol.
#[derive(Debug)]
pub enum DapMessage {
    Request(DapRequest),
    Response(DapResponse),
    Event(DapEvent),
}

/// What the adapter supports.
#[derive(Debug, Clone, Copy, PartialEq, Eq, Structural)]
pub struct Capabilities {
    pub supports_configuration_done_request: bool,
    pub supports_evaluate_for_hovers: bool,
    pub supports_set_variable: bool,
    pub supports_terminate_request: bool,
    pub supports_loaded_sources_request: bool,
    pub supports_breakpoint_locations_request: bool,
}

impl Default for Capabilities {
    fn default() -> (c: Capabilities)
        ensures
            !c.supports_configuration_done_request,
            !c.supports_evaluate_for_hovers,
            !c.supports_set_variable,
            !c.supports_terminate_request,
            !c.supports_loaded_sources_request,
            !c.supports_breakpoint_locations_request,
    {
        Capabilities {
            supports_configuration_done_request: false,
            supports_evaluate_for_hovers: false,
            supports_set_variable: false,
            supports_terminate_request: false,
            supports_loaded_sources_request: false,
            supports_breakpoint_locations_request: false,
        }
    }
}

#[derive(Debug)]
pub struct InitializeArgs {
    pub adapter_id: String,
    pub lines_start_at1: bool,
    pub columns_start_at1: bool,
    pub path_format: Option<String>,
}

#[derive(Debug)]
pub struct LaunchArgs {
    pub program: String,
    pub stop_on_entry: bool,
    /// JS or hybrid.
    pub runtime: String,
}

/// The runtime a launch asks for when it names none.
pub fn default_runtime() -> (s: String)
    ensures
        s@ == "js"@,
{
    string_of("js")
}

#[derive(Debug)]
pub struct SourceBreakpoint {
    pub line: u64,
    pub column: Option<u64>,
    pub condition: Option<String>,
}

#[derive(Debug)]
pub struct SetBreakpointsArgs {
    pub source: DapSource,
    pub breakpoints: Vec<SourceBreakpoint>,
}

#[derive(Debug)]
pub struct DapSource {
    pub name: Option<String>,
    pub path: Option<String>,
    pub source_reference: Option<u64>,
}

/// `a` and `b` hold the same text, or both none.
pub open spec fn same_opt(a: Option<String>, b: Option<String>) -> bool {
    match (a, b) {
        (Some(x), Some(y)) => x@ == y@,
        (None, None) => true,
        _ => false,
    }
}

fn copy_opt(a: &Option<String>) -> (r: Option<String>)
    ensures
        same_opt(*a, r),
{
    match a {
        Some(x) => Some(string_of(x.as_str())),
        None => None,
    }
}

impl DapSource {
    /// `self` and `other` describe the same source.
    pub open spec fn same(&self, other: DapSource) -> bool {
        same_opt(self.name, other.name) && same_opt(self.path, other.path) && self.source_reference
            == other.source_reference
    }

    /// A copy of the source.
    pub fn duplicate(&self) -> (r: DapSource)
        ensures
            self.same(r),
    {
        DapSource { name: copy_opt(&self.name), path: copy_opt(&self.path), source_reference: self.source_reference }
    }
}

#[derive(Debug)]
pub struct Breakpoint {
    pub id: u64,
    pub verified: bool,
    pub source: Option<DapSource>,
    pub line: Option<u64>,
}

#[derive(Debug)]
pub struct StackFrame {
    pub id: u64,
    pub name: String,
    pub source: Option<DapSource>,
    pub line: u64,
    pub column: u64,
    /// "js" or "wasm".
    pub presentation_hint: Option<String>,
}

#[derive(Debug)]
pub struct Scope {
    pub name: String,
    pub variables_reference: u64,
    pub expensive: bool,
}

#[derive(Debug)]
pub struct Variable {
    pub name: String,
    pub value: String,
    pub var_type: Option<String>,
    pub variables_reference: u64,
}

#[derive(Debug)]
pub struct Thread {
    pub id: u64,
    pub name: String,
}

} // verus!
