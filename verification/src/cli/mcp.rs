//! The decisions behind the MCP server that exposes the tools to AI agents:
//! which JSON-RPC methods exist, which tools a server offers, which tool a
//! call reaches, and what version of the protocol is spoken.
//!
//! Reading and writing JSON-RPC frames, and the tools' own work, happen in the
//! caller; every answer it gives is decided here.

use vstd::prelude::*;

use std::collections::HashSet;

use crate::text::{
    blank_text, decimal, is_blank, push_decimal, text_eq, text_of, trim, trim_text,
};

verus! {

/// The newest protocol revision this server implements.
pub const LATEST_PROTOCOL_VERSION: &'static str = "2025-06-18";

/// A JSON-RPC error: a code and a message for the agent.
#[derive(Debug)]
pub struct RpcError {
    pub code: i32,
    pub message: String,
}

/// The methods the server answers.
#[derive(Debug, Clone, Copy, PartialEq, Eq)]
pub enum McpMethod {
    Initialize,
    Ping,
    ListTools,
    CallTool,
    /// A notification, which is never answered with a result.
    Notification,
    ListResources,
    ListPrompts,
}

/// The tools the server offers.
#[derive(Debug, Clone, Copy, PartialEq, Eq)]
pub enum McpTool {
    Sessions,
    Status,
    WaitForStudio,
    ServeStart,
    ServeStop,
    Build,
    Sourcemap,
}

/// Where a tool call goes.
#[derive(Debug)]
pub enum ToolRoute {
    /// Run this tool.
    Run(McpTool),
    /// Refuse, reporting the reason through the tool result so the agent can
    /// read it and adjust.
    Unavailable(String),
}

/// A JSON value, carried through unread.
#[verifier::external_type_specification]
#[verifier::external_body]
pub struct ExJsonValue(serde_json::Value);

/// One JSON-RPC frame, as much of it as the server reads: the id to answer
/// against, as JSON text (none for a notification), the method name, and the
/// parameters the methods and tools look at. A member that is missing, or
/// not of the type it is read as, is `None`.
pub struct RequestFrame {
    pub id: Option<String>,
    pub method: Option<String>,
    /// `params.protocolVersion`, read by `initialize`.
    pub protocol_version: Option<String>,
    /// `params.name`, the tool a `tools/call` names.
    pub tool_name: Option<String>,
    /// `params.arguments`, what a tool call passes to the tool.
    pub arguments: ToolArguments,
}

/// The arguments a tool call can pass.
pub struct ToolArguments {
    pub port: Option<u64>,
    pub project: Option<String>,
    pub timeout_seconds: Option<u64>,
    pub auto_connect: Option<String>,
    pub output: Option<String>,
    pub include_script_paths: Option<bool>,
}

/// How the server answers one frame.
#[derive(Debug)]
pub enum Reply {
    /// Nothing is written: the frame was a notification.
    Silence,
    /// The result the method produced, answered against the id (JSON text).
    Answer(String),
    /// An empty object as the result, answered against the id (JSON text):
    /// the method produced nothing.
    EmptyAnswer(String),
    /// A JSON-RPC error, answered against the id (JSON text).
    Failure(String, RpcError),
}

/// The serve sessions this server started, by port. Only these may be
/// stopped through it.
pub struct SpawnedSessions {
    ports: HashSet<u16>,
}

/// What `mcp` was asked to do.
pub struct McpCommand {
    /// Only expose tools that read state, refusing to start, stop, or build
    /// anything.
    pub read_only: bool,
}

/// The method a JSON-RPC method name asks for.
pub open spec fn method_of(name: Seq<char>) -> Option<McpMethod> {
    if name == "initialize"@ {
        Some(McpMethod::Initialize)
    } else if name == "ping"@ {
        Some(McpMethod::Ping)
    } else if name == "tools/list"@ {
        Some(McpMethod::ListTools)
    } else if name == "tools/call"@ {
        Some(McpMethod::CallTool)
    } else if name == "notifications/initialized"@ || name == "notifications/cancelled"@ {
        Some(McpMethod::Notification)
    } else if name == "resources/list"@ {
        Some(McpMethod::ListResources)
    } else if name == "prompts/list"@ {
        Some(McpMethod::ListPrompts)
    } else {
        None
    }
}

/// The name an agent calls a tool by.
pub open spec fn tool_name(t: McpTool) -> Seq<char> {
    match t {
        McpTool::Sessions => "roxo_sessions"@,
        McpTool::Status => "roxo_status"@,
        McpTool::WaitForStudio => "roxo_wait_for_studio"@,
        McpTool::ServeStart => "roxo_serve_start"@,
        McpTool::ServeStop => "roxo_serve_stop"@,
        McpTool::Build => "roxo_build"@,
        McpTool::Sourcemap => "roxo_sourcemap"@,
    }
}

/// The tool a name calls.
pub open spec fn tool_of(name: Seq<char>) -> Option<McpTool> {
    if name == "roxo_sessions"@ {
        Some(McpTool::Sessions)
    } else if name == "roxo_status"@ {
        Some(McpTool::Status)
    } else if name == "roxo_wait_for_studio"@ {
        Some(McpTool::WaitForStudio)
    } else if name == "roxo_serve_start"@ {
        Some(McpTool::ServeStart)
    } else if name == "roxo_serve_stop"@ {
        Some(McpTool::ServeStop)
    } else if name == "roxo_build"@ {
        Some(McpTool::Build)
    } else if name == "roxo_sourcemap"@ {
        Some(McpTool::Sourcemap)
    } else {
        None
    }
}

/// Tools that only read state.
pub open spec fn reads_only(t: McpTool) -> bool {
    t == McpTool::Sessions || t == McpTool::Status || t == McpTool::WaitForStudio
}

/// The tools a server lists, in the order it lists them.
pub open spec fn offered_tools(read_only: bool) -> Seq<McpTool> {
    if read_only {
        seq![McpTool::Sessions, McpTool::Status, McpTool::WaitForStudio]
    } else {
        seq![
            McpTool::Sessions,
            McpTool::Status,
            McpTool::WaitForStudio,
            McpTool::ServeStart,
            McpTool::ServeStop,
            McpTool::Build,
            McpTool::Sourcemap,
        ]
    }
}

/// Whether a name is that of a tool which only reads state.
pub open spec fn is_read_name(name: Seq<char>) -> bool {
    name == "roxo_sessions"@ || name == "roxo_status"@ || name == "roxo_wait_for_studio"@
}

/// The protocol revisions this server speaks.
pub open spec fn is_supported_version(v: Seq<char>) -> bool {
    v == "2025-06-18"@ || v == "2025-03-26"@ || v == "2024-11-05"@
}

/// The revision answered to a client: its own when supported, the newest one
/// otherwise, since nothing here depends on features added between them.
pub open spec fn negotiated_version(requested: Option<Seq<char>>) -> Seq<char> {
    match requested {
        Some(v) if is_supported_version(v) => v,
        _ => "2025-06-18"@,
    }
}

/// How a call of the tool named `name` is routed: a read-only server
/// refuses every name but those of its reading tools before looking the name
/// up; an unknown name is a protocol error.
pub open spec fn routed(read_only: bool, name: Seq<char>, r: Result<ToolRoute, RpcError>) -> bool {
    &&& read_only && !is_read_name(name) ==> (r matches Ok(ToolRoute::Unavailable(message))
        && message@ == unavailable_text(name))
    &&& !(read_only && !is_read_name(name)) ==> match tool_of(name) {
        Some(t) => (r matches Ok(ToolRoute::Run(u)) && u == t),
        None => (r matches Err(e) && e.code == -32602 && e.message@ == unknown_tool_text(name)),
    }
}

pub open spec fn method_not_found_text(method: Seq<char>) -> Seq<char> {
    "Method not found: "@ + method
}

pub open spec fn unavailable_text(name: Seq<char>) -> Seq<char> {
    "'"@ + name + "' is unavailable because this Roxo MCP server was started with --read-only."@
}

pub open spec fn unknown_tool_text(name: Seq<char>) -> Seq<char> {
    "Unknown tool '"@ + name + "'"@
}

pub open spec fn not_started_here_text(port: nat) -> Seq<char> {
    "No serve session on port "@ + decimal(port)
        + " was started by this MCP server. Only sessions started with roxo_serve_start can be stopped here."@
}

/// The message serde_json gives when a line is not a JSON document, `None`
/// when it is one.
pub uninterp spec fn json_error(line: Seq<char>) -> Option<Seq<char>>;

/// The JSON text serde_json writes for the member of a line's document that
/// a JSON pointer names, `None` when there is no such member.
pub uninterp spec fn json_text_at(line: Seq<char>, pointer: Seq<char>) -> Option<Seq<char>>;

/// The string a JSON pointer names in a line's document, `None` when there is
/// no such member or it is not a string.
pub uninterp spec fn json_str_at(line: Seq<char>, pointer: Seq<char>) -> Option<Seq<char>>;

/// The number a JSON pointer names in a line's document, `None` when there is
/// no such member or it is not an integer that fits in a `u64`.
pub uninterp spec fn json_u64_at(line: Seq<char>, pointer: Seq<char>) -> Option<u64>;

/// The boolean a JSON pointer names in a line's document, `None` when there
/// is no such member or it is not a boolean.
pub uninterp spec fn json_bool_at(line: Seq<char>, pointer: Seq<char>) -> Option<bool>;

/// The message serde_json gives when bytes are not a JSON document, `None`
/// when they are one.
pub uninterp spec fn json_bytes_error(bytes: Seq<u8>) -> Option<Seq<char>>;

/// The text of an optional `String`.
pub open spec fn text_view(o: Option<String>) -> Option<Seq<char>> {
    match o {
        Some(s) => Some(s@),
        None => None,
    }
}

/// Whether a frame holds exactly what the server reads from `line`.
pub open spec fn frame_of_line(f: RequestFrame, line: Seq<char>) -> bool {
    &&& text_view(f.id) == json_text_at(line, "/id"@)
    &&& text_view(f.method) == json_str_at(line, "/method"@)
    &&& text_view(f.protocol_version) == json_str_at(line, "/params/protocolVersion"@)
    &&& text_view(f.tool_name) == json_str_at(line, "/params/name"@)
    &&& f.arguments.port == json_u64_at(line, "/params/arguments/port"@)
    &&& text_view(f.arguments.project) == json_str_at(line, "/params/arguments/project"@)
    &&& f.arguments.timeout_seconds == json_u64_at(line, "/params/arguments/timeoutSeconds"@)
    &&& text_view(f.arguments.auto_connect) == json_str_at(line, "/params/arguments/autoConnect"@)
    &&& text_view(f.arguments.output) == json_str_at(line, "/params/arguments/output"@)
    &&& f.arguments.include_script_paths == json_bool_at(
        line,
        "/params/arguments/includeScriptPaths"@,
    )
}

pub open spec fn parse_error_text(message: Seq<char>) -> Seq<char> {
    "Parse error: "@ + message
}

/// The texts of a list of `String`s.
pub open spec fn texts(v: Seq<String>) -> Seq<Seq<char>> {
    v.map_values(|s: String| s@)
}

/// serde_json's `from_str` into a `Value`: the error's message when the line
/// is not JSON.
#[verifier::external_body]
fn json_parse_error(line: &str) -> (r: Option<String>)
    ensures
        text_view(r) == json_error(line@),
{
    match serde_json::from_str::<serde_json::Value>(line) {
        Ok(_) => None,
        Err(e) => Some(e.to_string()),
    }
}

/// serde_json's `from_str` into a `Value`, then `Value::pointer` and the
/// value's JSON text (`to_string`).
#[verifier::external_body]
fn json_text_member(line: &str, pointer: &str) -> (r: Option<String>)
    ensures
        text_view(r) == json_text_at(line@, pointer@),
{
    match serde_json::from_str::<serde_json::Value>(line) {
        Ok(v) => v.pointer(pointer).map(serde_json::Value::to_string),
        Err(_) => None,
    }
}

/// serde_json's `from_str` into a `Value`, then `Value::pointer` and
/// `Value::as_str`.
#[verifier::external_body]
fn json_str_member(line: &str, pointer: &str) -> (r: Option<String>)
    ensures
        text_view(r) == json_str_at(line@, pointer@),
{
    match serde_json::from_str::<serde_json::Value>(line) {
        Ok(v) => v.pointer(pointer).and_then(serde_json::Value::as_str).map(String::from),
        Err(_) => None,
    }
}

/// serde_json's `from_str` into a `Value`, then `Value::pointer` and
/// `Value::as_u64`.
#[verifier::external_body]
fn json_u64_member(line: &str, pointer: &str) -> (r: Option<u64>)
    ensures
        r == json_u64_at(line@, pointer@),
{
    match serde_json::from_str::<serde_json::Value>(line) {
        Ok(v) => v.pointer(pointer).and_then(serde_json::Value::as_u64),
        Err(_) => None,
    }
}

/// serde_json's `from_str` into a `Value`, then `Value::pointer` and
/// `Value::as_bool`.
#[verifier::external_body]
fn json_bool_member(line: &str, pointer: &str) -> (r: Option<bool>)
    ensures
        r == json_bool_at(line@, pointer@),
{
    match serde_json::from_str::<serde_json::Value>(line) {
        Ok(v) => v.pointer(pointer).and_then(serde_json::Value::as_bool),
        Err(_) => None,
    }
}

/// Reads from a line of JSON what the server looks at.
fn frame_from_line(line: &str) -> (f: RequestFrame)
    ensures
        frame_of_line(f, line@),
{
    RequestFrame {
        id: json_text_member(line, "/id"),
        method: json_str_member(line, "/method"),
        protocol_version: json_str_member(line, "/params/protocolVersion"),
        tool_name: json_str_member(line, "/params/name"),
        arguments: ToolArguments {
            port: json_u64_member(line, "/params/arguments/port"),
            project: json_str_member(line, "/params/arguments/project"),
            timeout_seconds: json_u64_member(line, "/params/arguments/timeoutSeconds"),
            auto_connect: json_str_member(line, "/params/arguments/autoConnect"),
            output: json_str_member(line, "/params/arguments/output"),
            include_script_paths: json_bool_member(line, "/params/arguments/includeScriptPaths"),
        },
    }
}

/// serde_json's `from_slice` into a `Value`; the value is carried unread and
/// an error becomes its message.
#[verifier::external_body]
fn parse_json_bytes(bytes: &[u8]) -> (r: Result<serde_json::Value, String>)
    ensures
        r is Err <==> json_bytes_error(bytes@) is Some,
        r matches Err(m) ==> json_bytes_error(bytes@) == Some(m@),
{
    match serde_json::from_slice::<serde_json::Value>(bytes) {
        Ok(v) => Ok(v),
        Err(e) => Err(e.to_string()),
    }
}

/// Reads one line of the protocol stream. A blank line is skipped (`None`);
/// a line that is not JSON is answered with a parse error, which has no id to
/// answer against; otherwise the frame holds what the line says.
pub fn read_frame(line: &str) -> (r: Option<Result<RequestFrame, RpcError>>)
    ensures
        r is None <==> blank_text(line@),
        !blank_text(line@) ==> match json_error(line@) {
            None => (r matches Some(Ok(f)) && frame_of_line(f, line@)),
            Some(m) => (r matches Some(Err(e)) && e.code == -32700 && e.message@
                == parse_error_text(m)),
        },
{
    if is_blank(line) {
        return None;
    }
    match json_parse_error(line) {
        None => Some(Ok(frame_from_line(line))),
        Some(message) => {
            let mut text = text_of("Parse error: ");
            text.append(message.as_str());
            Some(Err(RpcError { code: -32700, message: text }))
        },
    }
}

/// How a frame is answered, given what dispatching its method gave: a
/// notification not at all, any other frame against its own id, with the
/// method's result, an empty result, or the method's error.
pub open spec fn answers(frame: RequestFrame, outcome: Result<bool, RpcError>, r: Reply) -> bool {
    &&& frame.id is None ==> r is Silence
    &&& frame.id matches Some(id) ==> match outcome {
        Ok(true) => (r matches Reply::Answer(a) && a@ == id@),
        Ok(false) => (r matches Reply::EmptyAnswer(a) && a@ == id@),
        Err(e) => (r matches Reply::Failure(a, x) && a@ == id@ && x == e),
    }
}

/// The answer to a frame, given what dispatching its method gave: whether
/// the method produced a result, or its error. A notification is never
/// answered; every other frame is answered against its own id.
pub fn reply_for(frame: &RequestFrame, outcome: Result<bool, RpcError>) -> (r: Reply)
    ensures
        answers(*frame, outcome, r),
{
    match &frame.id {
        None => Reply::Silence,
        Some(id) => {
            let id = text_of(id.as_str());
            match outcome {
                Ok(true) => Reply::Answer(id),
                Ok(false) => Reply::EmptyAnswer(id),
                Err(e) => Reply::Failure(id, e),
            }
        },
    }
}

/// Every line that is answered is answered against the id it carries: read
/// and then answered, a line with an `id` member gets a reply holding that
/// member's JSON text, and a line without one gets none.
pub proof fn lemma_answers_echo_the_line_id(
    line: Seq<char>,
    f: RequestFrame,
    outcome: Result<bool, RpcError>,
    r: Reply,
)
    requires
        frame_of_line(f, line),
        answers(f, outcome, r),
    ensures
        json_text_at(line, "/id"@) is None <==> r is Silence,
        r matches Reply::Answer(a) ==> json_text_at(line, "/id"@) == Some(a@),
        r matches Reply::EmptyAnswer(a) ==> json_text_at(line, "/id"@) == Some(a@),
        r matches Reply::Failure(a, _) ==> json_text_at(line, "/id"@) == Some(a@),
{
}

impl RequestFrame {
    /// The method a frame names: empty when it names none or it is not a
    /// string.
    pub fn method_name(&self) -> (r: &str)
        ensures
            r@ == match self.method {
                Some(m) => m@,
                None => ""@,
            },
    {
        match &self.method {
            Some(m) => m.as_str(),
            None => "",
        }
    }
}

impl View for SpawnedSessions {
    type V = Set<u16>;

    closed spec fn view(&self) -> Set<u16> {
        self.ports@
    }
}

impl SpawnedSessions {
    /// No session started yet.
    pub fn new() -> (r: SpawnedSessions)
        ensures
            r@ == Set::<u16>::empty(),
    {
        SpawnedSessions { ports: HashSet::new() }
    }

    /// Records a session this server started.
    pub fn record(&mut self, port: u16)
        ensures
            final(self)@ == old(self)@.insert(port),
    {
        broadcast use vstd::std_specs::hash::group_hash_axioms;

        self.ports.insert(port);
    }

    /// Lets go of the session on `port` so it can be stopped. A session this
    /// server did not start is refused: stopping it would let an agent take
    /// down a developer's own session.
    pub fn release(&mut self, port: u16) -> (r: Result<(), String>)
        ensures
            r is Ok <==> old(self)@.contains(port),
            final(self)@ == old(self)@.remove(port),
            r matches Err(m) ==> m@ == not_started_here_text(port as nat),
    {
        broadcast use vstd::std_specs::hash::group_hash_axioms;

        if self.ports.remove(&port) {
            Ok(())
        } else {
            Err(not_started_here_message(port))
        }
    }
}

impl RpcError {
    /// The error for a method the server does not implement.
    pub fn method_not_found(method: &str) -> (r: RpcError)
        ensures
            r.code == -32601,
            r.message@ == method_not_found_text(method@),
    {
        let mut message = text_of("Method not found: ");
        message.append(method);
        RpcError { code: -32601, message }
    }

    /// The error for a call whose parameters are wrong.
    pub fn invalid_params(message: String) -> (r: RpcError)
        ensures
            r.code == -32602,
            r.message == message,
    {
        RpcError { code: -32602, message }
    }
}

impl McpMethod {
    /// Routes a JSON-RPC method name; unknown methods are an error.
    pub fn route(method: &str) -> (r: Result<McpMethod, RpcError>)
        ensures
            r is Ok <==> method_of(method@) is Some,
            r matches Ok(m) ==> method_of(method@) == Some(m),
            r matches Err(e) ==> e.code == -32601 && e.message@ == method_not_found_text(method@),
    {
        if text_eq(method, "initialize") {
            Ok(McpMethod::Initialize)
        } else if text_eq(method, "ping") {
            Ok(McpMethod::Ping)
        } else if text_eq(method, "tools/list") {
            Ok(McpMethod::ListTools)
        } else if text_eq(method, "tools/call") {
            Ok(McpMethod::CallTool)
        } else if text_eq(method, "notifications/initialized") || text_eq(
            method,
            "notifications/cancelled",
        ) {
            Ok(McpMethod::Notification)
        } else if text_eq(method, "resources/list") {
            Ok(McpMethod::ListResources)
        } else if text_eq(method, "prompts/list") {
            Ok(McpMethod::ListPrompts)
        } else {
            Err(RpcError::method_not_found(method))
        }
    }
}

impl McpTool {
    /// The name an agent calls this tool by.
    pub fn name(self) -> (r: &'static str)
        ensures
            r@ == tool_name(self),
    {
        match self {
            McpTool::Sessions => "roxo_sessions",
            McpTool::Status => "roxo_status",
            McpTool::WaitForStudio => "roxo_wait_for_studio",
            McpTool::ServeStart => "roxo_serve_start",
            McpTool::ServeStop => "roxo_serve_stop",
            McpTool::Build => "roxo_build",
            McpTool::Sourcemap => "roxo_sourcemap",
        }
    }

    /// Whether the tool only reads state.
    pub fn is_read_only(self) -> (r: bool)
        ensures
            r == reads_only(self),
    {
        match self {
            McpTool::Sessions | McpTool::Status | McpTool::WaitForStudio => true,
            _ => false,
        }
    }

    /// The tool a name calls, if any.
    pub fn from_name(name: &str) -> (r: Option<McpTool>)
        ensures
            r == tool_of(name@),
    {
        if text_eq(name, "roxo_sessions") {
            Some(McpTool::Sessions)
        } else if text_eq(name, "roxo_status") {
            Some(McpTool::Status)
        } else if text_eq(name, "roxo_wait_for_studio") {
            Some(McpTool::WaitForStudio)
        } else if text_eq(name, "roxo_serve_start") {
            Some(McpTool::ServeStart)
        } else if text_eq(name, "roxo_serve_stop") {
            Some(McpTool::ServeStop)
        } else if text_eq(name, "roxo_build") {
            Some(McpTool::Build)
        } else if text_eq(name, "roxo_sourcemap") {
            Some(McpTool::Sourcemap)
        } else {
            None
        }
    }
}

impl McpCommand {
    /// The tools this server lists, in order. A read-only server hides every
    /// tool that starts, stops, or builds anything.
    pub fn tools(&self) -> (r: Vec<McpTool>)
        ensures
            r@ == offered_tools(self.read_only),
    {
        let mut tools: Vec<McpTool> = Vec::new();
        tools.push(McpTool::Sessions);
        tools.push(McpTool::Status);
        tools.push(McpTool::WaitForStudio);
        if !self.read_only {
            tools.push(McpTool::ServeStart);
            tools.push(McpTool::ServeStop);
            tools.push(McpTool::Build);
            tools.push(McpTool::Sourcemap);
        }
        assert(tools@ =~= offered_tools(self.read_only));
        tools
    }

    /// Routes a tool call by name. A read-only server refuses every name but
    /// those of its reading tools before looking the name up; an unknown name
    /// is a protocol error.
    pub fn route_tool(&self, name: &str) -> (r: Result<ToolRoute, RpcError>)
        ensures
            routed(self.read_only, name@, r),
    {
        let readable = text_eq(name, "roxo_sessions") || text_eq(name, "roxo_status") || text_eq(
            name,
            "roxo_wait_for_studio",
        );
        if self.read_only && !readable {
            let mut message = text_of("'");
            message.append(name);
            message.append(
                "' is unavailable because this Roxo MCP server was started with --read-only.",
            );
            return Ok(ToolRoute::Unavailable(message));
        }
        match McpTool::from_name(name) {
            Some(t) => Ok(ToolRoute::Run(t)),
            None => {
                let mut message = text_of("Unknown tool '");
                message.append(name);
                message.append("'");
                Err(RpcError::invalid_params(message))
            },
        }
    }
}

impl McpCommand {
    /// Routes a `tools/call` request by the tool name it carries; a request
    /// without one is refused as invalid.
    pub fn route_call(&self, name: Option<&str>) -> (r: Result<ToolRoute, RpcError>)
        ensures
            name is None ==> (r matches Err(e) && e.code == -32602 && e.message@
                == "Missing tool name"@),
            name matches Some(n) ==> routed(self.read_only, n@, r),
    {
        match name {
            Some(n) => self.route_tool(n),
            None => Err(RpcError::invalid_params(text_of("Missing tool name"))),
        }
    }
}

/// The arguments that start a serve session for `project`, with the port
/// and auto-connect policy the call named.
pub open spec fn serve_start_args(project: Seq<char>, port: Option<nat>, policy: Option<Seq<char>>) -> Seq<
    Seq<char>,
> {
    seq!["serve"@, project] + match port {
        Some(p) => seq!["--port"@, decimal(p)],
        None => Seq::empty(),
    } + match policy {
        Some(a) => seq!["--auto-connect"@, a],
        None => Seq::empty(),
    }
}

/// The arguments that build `project` into `output`.
pub open spec fn build_args(project: Seq<char>, output: Seq<char>) -> Seq<Seq<char>> {
    seq!["build"@, project, "--output"@, output]
}

/// The arguments that write the sourcemap of `project`; non-script files are
/// included unless the call asked otherwise.
pub open spec fn sourcemap_args(project: Seq<char>, include_script_paths: Option<bool>) -> Seq<Seq<char>> {
    if include_script_paths != Some(false) {
        seq!["sourcemap"@, project, "--include-non-scripts"@]
    } else {
        seq!["sourcemap"@, project]
    }
}

pub open spec fn build_failure_text(stderr: Seq<char>) -> Seq<char> {
    "Build failed:\n"@ + trim_text(stderr)
}

pub open spec fn sourcemap_failure_text(stderr: Seq<char>) -> Seq<char> {
    "Sourcemap generation failed:\n"@ + trim_text(stderr)
}

pub(crate) fn push_text(v: &mut Vec<String>, s: String)
    ensures
        texts(final(v)@) == texts(old(v)@).push(s@),
{
    v.push(s);
    assert(texts(v@) =~= texts(old(v)@).push(s@));
}

/// The command line of `roxo_serve_start`.
pub fn serve_start_arguments(project: &str, port: Option<u64>, auto_connect: Option<&str>) -> (r: Vec<
    String,
>)
    ensures
        texts(r@) == serve_start_args(
            project@,
            match port {
                Some(p) => Some(p as nat),
                None => None,
            },
            match auto_connect {
                Some(a) => Some(a@),
                None => None,
            },
        ),
{
    let mut args: Vec<String> = Vec::new();
    push_text(&mut args, text_of("serve"));
    push_text(&mut args, text_of(project));
    match port {
        Some(p) => {
            let mut number = String::new();
            push_decimal(&mut number, p);
            push_text(&mut args, text_of("--port"));
            push_text(&mut args, number);
        },
        None => {},
    }
    match auto_connect {
        Some(a) => {
            push_text(&mut args, text_of("--auto-connect"));
            push_text(&mut args, text_of(a));
        },
        None => {},
    }
    assert(texts(args@) =~= serve_start_args(
        project@,
        match port {
            Some(p) => Some(p as nat),
            None => None,
        },
        match auto_connect {
            Some(a) => Some(a@),
            None => None,
        },
    ));
    args
}

/// The command line of `roxo_build`.
pub fn build_arguments(project: &str, output: &str) -> (r: Vec<String>)
    ensures
        texts(r@) == build_args(project@, output@),
{
    let mut args: Vec<String> = Vec::new();
    push_text(&mut args, text_of("build"));
    push_text(&mut args, text_of(project));
    push_text(&mut args, text_of("--output"));
    push_text(&mut args, text_of(output));
    assert(texts(args@) =~= build_args(project@, output@));
    args
}

/// The command line of `roxo_sourcemap`.
pub fn sourcemap_arguments(project: &str, include_script_paths: Option<bool>) -> (r: Vec<String>)
    ensures
        texts(r@) == sourcemap_args(project@, include_script_paths),
{
    let mut args: Vec<String> = Vec::new();
    push_text(&mut args, text_of("sourcemap"));
    push_text(&mut args, text_of(project));
    let wanted = match include_script_paths {
        Some(b) => b,
        None => true,
    };
    if wanted {
        push_text(&mut args, text_of("--include-non-scripts"));
    }
    assert(texts(args@) =~= sourcemap_args(project@, include_script_paths));
    args
}

/// What `roxo_build` reports once the build has run: nothing on success,
/// otherwise the build's own error output.
pub fn build_outcome(success: bool, stderr: &str) -> (r: Result<(), String>)
    ensures
        r is Ok <==> success,
        r matches Err(m) ==> m@ == build_failure_text(stderr@),
{
    if success {
        Ok(())
    } else {
        let mut message = text_of("Build failed:\n");
        let detail = trim(stderr);
        message.append(detail.as_str());
        Err(message)
    }
}

/// What `roxo_sourcemap` reports once the generator has run: the sourcemap
/// it printed, read as JSON, or why there is none.
pub fn sourcemap_outcome(success: bool, stdout: &[u8], stderr: &str) -> (r: Result<
    serde_json::Value,
    String,
>)
    ensures
        !success ==> (r matches Err(m) && m@ == sourcemap_failure_text(stderr@)),
        success ==> (r is Err <==> json_bytes_error(stdout@) is Some),
        success ==> (r matches Err(m) ==> json_bytes_error(stdout@) == Some(m@)),
{
    if !success {
        let mut message = text_of("Sourcemap generation failed:\n");
        let detail = trim(stderr);
        message.append(detail.as_str());
        return Err(message);
    }
    parse_json_bytes(stdout)
}

/// Picks the protocol revision to answer a client with.
pub fn negotiate_protocol_version(requested: Option<&str>) -> (r: String)
    ensures
        r@ == negotiated_version(
            match requested {
                Some(v) => Some(v@),
                None => None,
            },
        ),
{
    match requested {
        Some(v) => {
            if text_eq(v, "2025-06-18") || text_eq(v, "2025-03-26") || text_eq(v, "2024-11-05") {
                text_of(v)
            } else {
                text_of(LATEST_PROTOCOL_VERSION)
            }
        },
        None => text_of(LATEST_PROTOCOL_VERSION),
    }
}

/// The port a tool argument names: the low 16 bits of the number given.
pub fn port_from_argument(value: u64) -> (r: u16)
    ensures
        r == value % 65536,
{
    let r = value as u16;
    assert(r == value % 65536) by (bit_vector)
        requires
            r == value as u16,
    ;
    r
}

/// The refusal to stop a session that this server did not start: killing it
/// would let an agent silently take down a developer's own session.
pub fn not_started_here_message(port: u16) -> (r: String)
    ensures
        r@ == not_started_here_text(port as nat),
{
    let mut out = text_of("No serve session on port ");
    push_decimal(&mut out, port as u64);
    out.append(
        " was started by this MCP server. Only sessions started with roxo_serve_start can be stopped here.",
    );
    out
}

/// The error when Studio does not attach within the timeout, naming the last
/// failure when there was one.
pub open spec fn studio_wait_timeout_text(timeout: nat, last_error: Option<Seq<char>>) -> Seq<char> {
    "Studio did not connect within "@ + decimal(timeout)
        + "s. Check that the place is open in Studio with the Roxo plugin installed, and that the project's auto-connect policy is not 'off'."@
        + match last_error {
        Some(e) => " Last attempt: "@ + e,
        None => Seq::empty(),
    }
}

/// How long `roxo_wait_for_studio` waits when the call names no timeout.
pub open spec fn default_wait_seconds() -> u64 {
    60
}

/// The timeout of a `roxo_wait_for_studio` call, 60 seconds when not given.
pub fn wait_timeout_seconds(requested: Option<u64>) -> (r: u64)
    ensures
        r == match requested {
            Some(t) => t,
            None => default_wait_seconds(),
        },
{
    match requested {
        Some(t) => t,
        None => 60,
    }
}

/// The error `roxo_wait_for_studio` reports when Studio does not attach.
pub fn studio_wait_timeout_message(timeout: u64, last_error: Option<&str>) -> (r: String)
    ensures
        r@ == studio_wait_timeout_text(
            timeout as nat,
            match last_error {
                Some(e) => Some(e@),
                None => None,
            },
        ),
{
    let mut out = text_of("Studio did not connect within ");
    push_decimal(&mut out, timeout);
    out.append(
        "s. Check that the place is open in Studio with the Roxo plugin installed, and that the project's auto-connect policy is not 'off'.",
    );
    match last_error {
        Some(e) => {
            out.append(" Last attempt: ");
            out.append(e);
        },
        None => {
            assert(out@ + Seq::<char>::empty() =~= out@);
        },
    }
    out
}

proof fn lemma_tool_names_read_back()
    ensures
        forall|t: McpTool| #[trigger] tool_of(tool_name(t)) == Some(t),
        forall|t: McpTool| #[trigger] is_read_name(tool_name(t)) == reads_only(t),
{
    reveal_strlit("roxo_sessions");
    reveal_strlit("roxo_status");
    reveal_strlit("roxo_wait_for_studio");
    reveal_strlit("roxo_serve_start");
    reveal_strlit("roxo_serve_stop");
    reveal_strlit("roxo_build");
    reveal_strlit("roxo_sourcemap");
    assert("roxo_sessions"@ != "roxo_status"@) by {
        assert("roxo_sessions"@[6] != "roxo_status"@[6]);
    }
    assert("roxo_sessions"@.len() == 13);
    assert("roxo_status"@.len() == 11);
    assert("roxo_wait_for_studio"@.len() == 20);
    assert("roxo_serve_start"@.len() == 16);
    assert("roxo_serve_stop"@.len() == 15);
    assert("roxo_build"@.len() == 10);
    assert("roxo_sourcemap"@.len() == 14);
}

/// A server offers exactly the tools a call can reach: a listed tool's name
/// routes to that tool, and a tool it hides is refused by name.
pub proof fn lemma_offered_tools_are_the_reachable_ones(read_only: bool, t: McpTool)
    ensures
        offered_tools(read_only).contains(t) <==> (!read_only || reads_only(t)),
        offered_tools(read_only).contains(t) ==> !(read_only && !is_read_name(tool_name(t))) && tool_of(
            tool_name(t),
        ) == Some(t),
        !offered_tools(read_only).contains(t) ==> read_only && !is_read_name(tool_name(t)),
{
    lemma_tool_names_read_back();
    let s = offered_tools(read_only);
    if !read_only || reads_only(t) {
        let i: int = match t {
            McpTool::Sessions => 0,
            McpTool::Status => 1,
            McpTool::WaitForStudio => 2,
            McpTool::ServeStart => 3,
            McpTool::ServeStop => 4,
            McpTool::Build => 5,
            McpTool::Sourcemap => 6,
        };
        assert(s[i] == t);
    }
}

/// The revision a server answers with is always one it speaks, and a client's
/// own supported revision is echoed back.
pub proof fn lemma_negotiated_version_is_supported(requested: Option<Seq<char>>)
    ensures
        is_supported_version(negotiated_version(requested)),
        forall|v: Seq<char>| requested == Some(v) && is_supported_version(v) ==> negotiated_version(requested) == v,
{
}

/// Each tool answers to the name the protocol gives it, and only to that
/// name: `roxo_sessions` lists sessions, `roxo_status` reports one,
/// `roxo_wait_for_studio` waits for Studio, `roxo_serve_start` starts a
/// session, `roxo_serve_stop` stops one, `roxo_build` builds and
/// `roxo_sourcemap` writes a sourcemap. A call that a server does not refuse
/// for being read-only runs exactly the tool its name names; every tool is
/// listed under that same name.
pub proof fn lemma_tools_answer_to_their_names(
    read_only: bool,
    name: Seq<char>,
    r: Result<ToolRoute, RpcError>,
)
    requires
        routed(read_only, name, r),
    ensures
        tool_name(McpTool::Sessions) == "roxo_sessions"@,
        tool_name(McpTool::Status) == "roxo_status"@,
        tool_name(McpTool::WaitForStudio) == "roxo_wait_for_studio"@,
        tool_name(McpTool::ServeStart) == "roxo_serve_start"@,
        tool_name(McpTool::ServeStop) == "roxo_serve_stop"@,
        tool_name(McpTool::Build) == "roxo_build"@,
        tool_name(McpTool::Sourcemap) == "roxo_sourcemap"@,
        !read_only || is_read_name(name) ==> {
            &&& (r matches Ok(ToolRoute::Run(McpTool::Sessions))) <==> name == "roxo_sessions"@
            &&& (r matches Ok(ToolRoute::Run(McpTool::Status))) <==> name == "roxo_status"@
            &&& (r matches Ok(ToolRoute::Run(McpTool::WaitForStudio))) <==> name
                == "roxo_wait_for_studio"@
            &&& (r matches Ok(ToolRoute::Run(McpTool::ServeStart))) <==> name == "roxo_serve_start"@
            &&& (r matches Ok(ToolRoute::Run(McpTool::ServeStop))) <==> name == "roxo_serve_stop"@
            &&& (r matches Ok(ToolRoute::Run(McpTool::Build))) <==> name == "roxo_build"@
            &&& (r matches Ok(ToolRoute::Run(McpTool::Sourcemap))) <==> name == "roxo_sourcemap"@
        },
{
    reveal_strlit("roxo_sessions");
    reveal_strlit("roxo_status");
    reveal_strlit("roxo_wait_for_studio");
    reveal_strlit("roxo_serve_start");
    reveal_strlit("roxo_serve_stop");
    reveal_strlit("roxo_build");
    reveal_strlit("roxo_sourcemap");
    assert("roxo_sessions"@.len() == 13);
    assert("roxo_status"@.len() == 11);
    assert("roxo_wait_for_studio"@.len() == 20);
    assert("roxo_serve_start"@.len() == 16);
    assert("roxo_serve_stop"@.len() == 15);
    assert("roxo_build"@.len() == 10);
    assert("roxo_sourcemap"@.len() == 14);
}

/// Every method the server implements is routed under its protocol name, and
/// nothing else is: `initialize`, `ping`, `tools/list`, `tools/call`, the two
/// notifications, `resources/list` and `prompts/list`.
pub proof fn lemma_methods_answer_to_their_names(name: Seq<char>)
    ensures
        method_of(name) == Some(McpMethod::Initialize) <==> name == "initialize"@,
        method_of(name) == Some(McpMethod::Ping) <==> name == "ping"@,
        method_of(name) == Some(McpMethod::ListTools) <==> name == "tools/list"@,
        method_of(name) == Some(McpMethod::CallTool) <==> name == "tools/call"@,
        method_of(name) == Some(McpMethod::Notification) <==> (name == "notifications/initialized"@
            || name == "notifications/cancelled"@),
        method_of(name) == Some(McpMethod::ListResources) <==> name == "resources/list"@,
        method_of(name) == Some(McpMethod::ListPrompts) <==> name == "prompts/list"@,
{
    reveal_strlit("initialize");
    reveal_strlit("ping");
    reveal_strlit("tools/list");
    reveal_strlit("tools/call");
    reveal_strlit("notifications/initialized");
    reveal_strlit("notifications/cancelled");
    reveal_strlit("resources/list");
    reveal_strlit("prompts/list");
    assert("initialize"@.len() == 10);
    assert("ping"@.len() == 4);
    assert("tools/list"@.len() == 10);
    assert("tools/call"@.len() == 10);
    assert("notifications/initialized"@.len() == 25);
    assert("notifications/cancelled"@.len() == 23);
    assert("resources/list"@.len() == 14);
    assert("prompts/list"@.len() == 12);
    assert("initialize"@[0] != "tools/list"@[0]);
    assert("initialize"@[0] != "tools/call"@[0]);
    assert("tools/list"@[6] != "tools/call"@[6]);
}

/// The command line that starts a session serves the project it was given,
/// and carries `--port` with the port's decimal digits exactly when a port
/// was asked for, and `--auto-connect` with the policy exactly when a policy
/// was asked for, each independently of the other.
pub proof fn lemma_serve_start_carries_every_option(
    project: Seq<char>,
    port: Option<nat>,
    policy: Option<Seq<char>>,
)
    ensures
        ({
            let a = serve_start_args(project, port, policy);
            &&& a.len() == 2 + (if port is Some { 2int } else { 0 }) + (if policy is Some { 2int } else { 0 })
            &&& a[0] == "serve"@
            &&& a[1] == project
            &&& port matches Some(p) ==> a[2] == "--port"@ && a[3] == decimal(p)
            &&& policy matches Some(x) ==> a[a.len() - 2] == "--auto-connect"@ && a[a.len() - 1] == x
        }),
{
}

/// A build runs `build` on the project with the output path after
/// `--output`; a sourcemap includes non-script files unless the call said
/// `false`.
pub proof fn lemma_build_and_sourcemap_lines(
    project: Seq<char>,
    output: Seq<char>,
    include_script_paths: Option<bool>,
)
    ensures
        build_args(project, output).len() == 4,
        build_args(project, output)[0] == "build"@,
        build_args(project, output)[1] == project,
        build_args(project, output)[2] == "--output"@,
        build_args(project, output)[3] == output,
        sourcemap_args(project, include_script_paths)[0] == "sourcemap"@,
        sourcemap_args(project, include_script_paths)[1] == project,
        sourcemap_args(project, include_script_paths).len() == (if include_script_paths == Some(
            false,
        ) {
            2int
        } else {
            3
        }),
        include_script_paths != Some(false) ==> sourcemap_args(project, include_script_paths)[2]
            == "--include-non-scripts"@,
{
}

} // verus!
