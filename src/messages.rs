use vstd::prelude::*;
use vstd::utf8::*;

use crate::encoding::{push_quoted, push_signed_decimal, quoted, signed_decimal};
use crate::errors::{AdapterError, DeserializationError};

verus! {

broadcast use {encode_utf8_valid_utf8, encode_utf8_decode_utf8};

/// The UTF-8 bytes of a text.
pub open spec fn utf8(s: Seq<char>) -> Seq<u8> {
    encode_utf8(s)
}

/// Whether two texts are the same.
pub fn same_text(a: &str, b: &str) -> (r: bool)
    ensures
        r == (a@ == b@),
{
    let x = a.as_bytes();
    let y = b.as_bytes();
    assert(x@ == encode_utf8(a@));
    assert(y@ == encode_utf8(b@));
    if x.len() != y.len() {
        return false;
    }
    let mut i: usize = 0;
    while i < x.len()
        invariant
            i <= x@.len(),
            x@.len() == y@.len(),
            x@ == encode_utf8(a@),
            y@ == encode_utf8(b@),
            forall|k: int| 0 <= k < i ==> x@[k] == y@[k],
        decreases x@.len() - i,
    {
        if x[i] != y[i] {
            return false;
        }
        i = i + 1;
    }
    assert(x@ =~= y@);
    assert(decode_utf8(encode_utf8(a@)) == a@);
    assert(decode_utf8(encode_utf8(b@)) == b@);
    true
}

/// Appends the UTF-8 bytes of `s` to `out`.
pub fn push_text(out: &mut Vec<u8>, s: &str)
    ensures
        final(out)@ == old(out)@ + utf8(s@),
{
    out.extend_from_slice(s.as_bytes());
}

/// The requests that a client may send, named by their `command` tag.
#[derive(Debug, Clone, Copy, PartialEq, Eq, Structural)]
pub enum Command {
    Attach,
    BreakpointLocations,
    Cancel,
    Completions,
    ConfigurationDone,
    Continue,
    DataBreakpointInfo,
    Disassemble,
    Disconnect,
    Evaluate,
    ExceptionInfo,
    Goto,
    GotoTargets,
    Initialize,
    Launch,
    LoadedSources,
    Modules,
    Next,
    Pause,
    ReadMemory,
    Restart,
    RestartFrame,
    ReverseContinue,
    Scopes,
    SetBreakpoints,
    SetDataBreakpoints,
    SetExceptionBreakpoints,
    SetExpression,
    SetFunctionBreakpoints,
    SetInstructionBreakpoints,
    SetVariable,
    Source,
    StackTrace,
    StepBack,
    StepIn,
    StepInTargets,
    StepOut,
    Terminate,
    TerminateThreads,
    Threads,
    Variables,
    WriteMemory,
}

/// The `command` tag that names each request on the wire.
pub open spec fn command_tag(c: Command) -> Seq<char> {
    match c {
        Command::Attach => "attach"@,
        Command::BreakpointLocations => "breakpointLocations"@,
        Command::Cancel => "cancel"@,
        Command::Completions => "completions"@,
        Command::ConfigurationDone => "configurationDone"@,
        Command::Continue => "continue"@,
        Command::DataBreakpointInfo => "dataBreakpointInfo"@,
        Command::Disassemble => "disassemble"@,
        Command::Disconnect => "disconnect"@,
        Command::Evaluate => "evaluate"@,
        Command::ExceptionInfo => "exceptionInfo"@,
        Command::Goto => "goto"@,
        Command::GotoTargets => "gotoTargets"@,
        Command::Initialize => "initialize"@,
        Command::Launch => "launch"@,
        Command::LoadedSources => "loadedSources"@,
        Command::Modules => "modules"@,
        Command::Next => "next"@,
        Command::Pause => "pause"@,
        Command::ReadMemory => "readMemory"@,
        Command::Restart => "restart"@,
        Command::RestartFrame => "restartFrame"@,
        Command::ReverseContinue => "reverseContinue"@,
        Command::Scopes => "scopes"@,
        Command::SetBreakpoints => "setBreakpoints"@,
        Command::SetDataBreakpoints => "setDataBreakpoints"@,
        Command::SetExceptionBreakpoints => "setExceptionBreakpoints"@,
        Command::SetExpression => "setExpression"@,
        Command::SetFunctionBreakpoints => "setFunctionBreakpoints"@,
        Command::SetInstructionBreakpoints => "setInstructionBreakpoints"@,
        Command::SetVariable => "setVariable"@,
        Command::Source => "source"@,
        Command::StackTrace => "stackTrace"@,
        Command::StepBack => "stepBack"@,
        Command::StepIn => "stepIn"@,
        Command::StepInTargets => "stepInTargets"@,
        Command::StepOut => "stepOut"@,
        Command::Terminate => "terminate"@,
        Command::TerminateThreads => "terminateThreads"@,
        Command::Threads => "threads"@,
        Command::Variables => "variables"@,
        Command::WriteMemory => "writeMemory"@,
    }
}

impl Command {
    /// The `command` tag of this request.
    pub fn tag(&self) -> (r: &'static str)
        ensures
            r@ == command_tag(*self),
    {
        match self {
            Command::Attach => "attach",
            Command::BreakpointLocations => "breakpointLocations",
            Command::Cancel => "cancel",
            Command::Completions => "completions",
            Command::ConfigurationDone => "configurationDone",
            Command::Continue => "continue",
            Command::DataBreakpointInfo => "dataBreakpointInfo",
            Command::Disassemble => "disassemble",
            Command::Disconnect => "disconnect",
            Command::Evaluate => "evaluate",
            Command::ExceptionInfo => "exceptionInfo",
            Command::Goto => "goto",
            Command::GotoTargets => "gotoTargets",
            Command::Initialize => "initialize",
            Command::Launch => "launch",
            Command::LoadedSources => "loadedSources",
            Command::Modules => "modules",
            Command::Next => "next",
            Command::Pause => "pause",
            Command::ReadMemory => "readMemory",
            Command::Restart => "restart",
            Command::RestartFrame => "restartFrame",
            Command::ReverseContinue => "reverseContinue",
            Command::Scopes => "scopes",
            Command::SetBreakpoints => "setBreakpoints",
            Command::SetDataBreakpoints => "setDataBreakpoints",
            Command::SetExceptionBreakpoints => "setExceptionBreakpoints",
            Command::SetExpression => "setExpression",
            Command::SetFunctionBreakpoints => "setFunctionBreakpoints",
            Command::SetInstructionBreakpoints => "setInstructionBreakpoints",
            Command::SetVariable => "setVariable",
            Command::Source => "source",
            Command::StackTrace => "stackTrace",
            Command::StepBack => "stepBack",
            Command::StepIn => "stepIn",
            Command::StepInTargets => "stepInTargets",
            Command::StepOut => "stepOut",
            Command::Terminate => "terminate",
            Command::TerminateThreads => "terminateThreads",
            Command::Threads => "threads",
            Command::Variables => "variables",
            Command::WriteMemory => "writeMemory",
        }
    }

    /// The request that `tag` names in the catalog, if any.
    fn lookup(tag: &str) -> (r: Option<Command>)
        ensures
            r is Some ==> command_tag(r->0) == tag@,
            r is None ==> forall|c: Command| command_tag(c) != tag@,
    {
        if same_text(tag, "attach") {
            return Some(Command::Attach);
        }
        if same_text(tag, "breakpointLocations") {
            return Some(Command::BreakpointLocations);
        }
        if same_text(tag, "cancel") {
            return Some(Command::Cancel);
        }
        if same_text(tag, "completions") {
            return Some(Command::Completions);
        }
        if same_text(tag, "configurationDone") {
            return Some(Command::ConfigurationDone);
        }
        if same_text(tag, "continue") {
            return Some(Command::Continue);
        }
        if same_text(tag, "dataBreakpointInfo") {
            return Some(Command::DataBreakpointInfo);
        }
        if same_text(tag, "disassemble") {
            return Some(Command::Disassemble);
        }
        if same_text(tag, "disconnect") {
            return Some(Command::Disconnect);
        }
        if same_text(tag, "evaluate") {
            return Some(Command::Evaluate);
        }
        if same_text(tag, "exceptionInfo") {
            return Some(Command::ExceptionInfo);
        }
        if same_text(tag, "goto") {
            return Some(Command::Goto);
        }
        if same_text(tag, "gotoTargets") {
            return Some(Command::GotoTargets);
        }
        if same_text(tag, "initialize") {
            return Some(Command::Initialize);
        }
        if same_text(tag, "launch") {
            return Some(Command::Launch);
        }
        if same_text(tag, "loadedSources") {
            return Some(Command::LoadedSources);
        }
        if same_text(tag, "modules") {
            return Some(Command::Modules);
        }
        if same_text(tag, "next") {
            return Some(Command::Next);
        }
        if same_text(tag, "pause") {
            return Some(Command::Pause);
        }
        if same_text(tag, "readMemory") {
            return Some(Command::ReadMemory);
        }
        if same_text(tag, "restart") {
            return Some(Command::Restart);
        }
        if same_text(tag, "restartFrame") {
            return Some(Command::RestartFrame);
        }
        if same_text(tag, "reverseContinue") {
            return Some(Command::ReverseContinue);
        }
        if same_text(tag, "scopes") {
            return Some(Command::Scopes);
        }
        if same_text(tag, "setBreakpoints") {
            return Some(Command::SetBreakpoints);
        }
        if same_text(tag, "setDataBreakpoints") {
            return Some(Command::SetDataBreakpoints);
        }
        if same_text(tag, "setExceptionBreakpoints") {
            return Some(Command::SetExceptionBreakpoints);
        }
        if same_text(tag, "setExpression") {
            return Some(Command::SetExpression);
        }
        if same_text(tag, "setFunctionBreakpoints") {
            return Some(Command::SetFunctionBreakpoints);
        }
        if same_text(tag, "setInstructionBreakpoints") {
            return Some(Command::SetInstructionBreakpoints);
        }
        if same_text(tag, "setVariable") {
            return Some(Command::SetVariable);
        }
        if same_text(tag, "source") {
            return Some(Command::Source);
        }
        if same_text(tag, "stackTrace") {
            return Some(Command::StackTrace);
        }
        if same_text(tag, "stepBack") {
            return Some(Command::StepBack);
        }
        if same_text(tag, "stepIn") {
            return Some(Command::StepIn);
        }
        if same_text(tag, "stepInTargets") {
            return Some(Command::StepInTargets);
        }
        if same_text(tag, "stepOut") {
            return Some(Command::StepOut);
        }
        if same_text(tag, "terminate") {
            return Some(Command::Terminate);
        }
        if same_text(tag, "terminateThreads") {
            return Some(Command::TerminateThreads);
        }
        if same_text(tag, "threads") {
            return Some(Command::Threads);
        }
        if same_text(tag, "variables") {
            return Some(Command::Variables);
        }
        if same_text(tag, "writeMemory") {
            return Some(Command::WriteMemory);
        }
        None
    }

    /// The request that `tag` names; a tag outside the catalog is refused.
    pub fn from_tag(tag: &str) -> (r: Result<Command, DeserializationError>)
        ensures
            r is Ok ==> command_tag(r->Ok_0) == tag@,
            r is Err <==> forall|c: Command| command_tag(c) != tag@,
            r is Err ==> (r matches Err(
                DeserializationError::StringToEnumParseError { enum_name, value },
            ) && enum_name@ == "Command"@ && value@ == tag@),
    {
        match Command::lookup(tag) {
            Some(c) => {
                assert(command_tag(c) == tag@);
                Ok(c)
            },
            None => Err(
                DeserializationError::StringToEnumParseError {
                    enum_name: "Command".to_owned(),
                    value: tag.to_owned(),
                },
            ),
        }
    }
}

/// Why a response failed, in short form.
#[derive(Debug, Clone)]
pub enum ResponseMessage {
    /// The request was cancelled.
    Cancelled,
    /// A short error text, meant for the client rather than for the user.
    Error(String),
}

/// What a response says about the command it answers.
#[derive(Debug, Clone)]
pub enum ResponseBody {
    /// Nothing is sent for this request now: the adapter answers it later, out of band.
    Empty,
    /// An acknowledgement of the command, without a body.
    Ack(Command),
    /// The answer to the command, with its body as JSON text.
    Body(Command, String),
}

/// The answer to one request.
#[derive(Debug, Clone)]
pub struct Response {
    /// The `seq` of the request this answers.
    pub request_seq: i64,
    /// Whether the request succeeded.
    pub success: bool,
    /// Why it failed, when it did.
    pub message: Option<ResponseMessage>,
    /// The command answered, and its result.
    pub body: Option<ResponseBody>,
}

/// An unsolicited notification to the client.
#[derive(Debug, Clone)]
pub struct Event {
    /// The name of the event.
    pub event: String,
    /// Its body as JSON text.
    pub body: Option<String>,
}

/// A request that this side sends to the client.
#[derive(Debug, Clone)]
pub struct ReverseRequest {
    /// The command requested.
    pub command: String,
    /// Its arguments as JSON text.
    pub arguments: Option<String>,
}

/// A request received from the client.
#[derive(Debug, Clone)]
pub struct Request {
    /// The client's sequence number of the request.
    pub seq: i64,
    /// The command requested.
    pub command: Command,
    /// Its arguments as JSON text.
    pub arguments: Option<String>,
}

/// What can be sent to the client.
#[derive(Debug, Clone)]
pub enum Sendable {
    Response(Response),
    Event(Event),
    ReverseRequest(ReverseRequest),
}

/// The envelope around everything sent: a sequence number and the message.
#[derive(Debug, Clone)]
pub struct BaseMessage {
    /// The sequence number of the message; the first message sent is 1.
    pub seq: i64,
    pub message: Sendable,
}

/// The envelope under its other name.
pub type DAPMessage = BaseMessage;

/// The JSON text of a boolean.
pub open spec fn bool_json(b: bool) -> Seq<u8> {
    if b {
        utf8("true"@)
    } else {
        utf8("false"@)
    }
}

/// The `message` field of a response, if it has one.
pub open spec fn message_field(m: Option<ResponseMessage>) -> Seq<u8> {
    match m {
        None => seq![],
        Some(ResponseMessage::Cancelled) => utf8(",\"message\":\"cancelled\""@),
        Some(ResponseMessage::Error(text)) => utf8(",\"message\":"@) + quoted(utf8(text@)),
    }
}

/// The `command` and `body` fields of a response.
pub open spec fn body_fields(b: Option<ResponseBody>) -> Seq<u8> {
    match b {
        Some(ResponseBody::Ack(c)) => utf8(",\"command\":"@) + quoted(utf8(command_tag(c))),
        Some(ResponseBody::Body(c, json)) => utf8(",\"command\":"@) + quoted(utf8(command_tag(c)))
            + utf8(",\"body\":"@) + utf8(json@),
        _ => seq![],
    }
}

/// A field holding JSON text, if there is one.
pub open spec fn raw_field(name: Seq<char>, value: Option<String>) -> Seq<u8> {
    match value {
        None => seq![],
        Some(json) => utf8(name) + utf8(json@),
    }
}

/// The fields that follow `seq` in the JSON object of a message.
pub open spec fn payload_fields(s: Sendable) -> Seq<u8> {
    match s {
        Sendable::Response(r) => utf8(",\"type\":\"response\",\"request_seq\":"@) + signed_decimal(
            r.request_seq as int,
        ) + utf8(",\"success\":"@) + bool_json(r.success) + message_field(r.message) + body_fields(
            r.body,
        ),
        Sendable::Event(e) => utf8(",\"type\":\"event\",\"event\":"@) + quoted(utf8(e.event@))
            + raw_field(",\"body\":"@, e.body),
        Sendable::ReverseRequest(q) => utf8(",\"type\":\"request\",\"command\":"@) + quoted(
            utf8(q.command@),
        ) + raw_field(",\"arguments\":"@, q.arguments),
    }
}

/// The compact JSON text of a message in its envelope.
pub open spec fn message_json(seq: int, s: Sendable) -> Seq<u8> {
    utf8("{\"seq\":"@) + signed_decimal(seq) + payload_fields(s) + utf8("}"@)
}

fn push_raw_field(out: &mut Vec<u8>, name: &str, value: &Option<String>)
    ensures
        final(out)@ == old(out)@ + raw_field(name@, *value),
{
    match value {
        None => {
            assert(out@ =~= old(out)@ + raw_field(name@, *value));
        },
        Some(json) => {
            push_text(out, name);
            push_text(out, json.as_str());
            assert(out@ =~= old(out)@ + raw_field(name@, *value));
        },
    }
}

fn push_message_field(out: &mut Vec<u8>, m: &Option<ResponseMessage>)
    ensures
        final(out)@ == old(out)@ + message_field(*m),
{
    match m {
        None => {},
        Some(ResponseMessage::Cancelled) => {
            push_text(out, ",\"message\":\"cancelled\"");
        },
        Some(ResponseMessage::Error(text)) => {
            push_text(out, ",\"message\":");
            push_quoted(out, text.as_str().as_bytes());
        },
    }
    assert(out@ =~= old(out)@ + message_field(*m));
}

fn push_body_fields(out: &mut Vec<u8>, b: &Option<ResponseBody>)
    ensures
        final(out)@ == old(out)@ + body_fields(*b),
{
    match b {
        Some(ResponseBody::Ack(c)) => {
            push_text(out, ",\"command\":");
            push_quoted(out, c.tag().as_bytes());
        },
        Some(ResponseBody::Body(c, json)) => {
            push_text(out, ",\"command\":");
            push_quoted(out, c.tag().as_bytes());
            push_text(out, ",\"body\":");
            push_text(out, json.as_str());
        },
        _ => {},
    }
    assert(out@ =~= old(out)@ + body_fields(*b));
}

fn push_response_fields(out: &mut Vec<u8>, r: &Response)
    ensures
        final(out)@ == old(out)@ + payload_fields(Sendable::Response(*r)),
{
    push_text(out, ",\"type\":\"response\",\"request_seq\":");
    push_signed_decimal(out, r.request_seq);
    push_text(out, ",\"success\":");
    if r.success {
        push_text(out, "true");
    } else {
        push_text(out, "false");
    }
    push_message_field(out, &r.message);
    push_body_fields(out, &r.body);
    assert(out@ =~= old(out)@ + payload_fields(Sendable::Response(*r)));
}

fn push_payload_fields(out: &mut Vec<u8>, s: &Sendable)
    ensures
        final(out)@ == old(out)@ + payload_fields(*s),
{
    match s {
        Sendable::Response(r) => {
            push_response_fields(out, r);
        },
        Sendable::Event(e) => {
            push_text(out, ",\"type\":\"event\",\"event\":");
            push_quoted(out, e.event.as_str().as_bytes());
            push_raw_field(out, ",\"body\":", &e.body);
            assert(out@ =~= old(out)@ + payload_fields(*s));
        },
        Sendable::ReverseRequest(q) => {
            push_text(out, ",\"type\":\"request\",\"command\":");
            push_quoted(out, q.command.as_str().as_bytes());
            push_raw_field(out, ",\"arguments\":", &q.arguments);
            assert(out@ =~= old(out)@ + payload_fields(*s));
        },
    }
}

/// Appends the JSON text of `s`, enveloped with sequence number `seq`, to `out`.
pub fn push_message_json(out: &mut Vec<u8>, seq: i64, s: &Sendable)
    ensures
        final(out)@ == old(out)@ + message_json(seq as int, *s),
{
    push_text(out, "{\"seq\":");
    push_signed_decimal(out, seq);
    push_payload_fields(out, s);
    push_text(out, "}");
    assert(out@ =~= old(out)@ + message_json(seq as int, *s));
}

/// Whether `kind` and `command` name a request of the catalog.
pub open spec fn is_request_of_catalog(kind: Seq<char>, command: Seq<char>) -> bool {
    kind == "request"@ && exists|c: Command| command_tag(c) == command
}

/// The error that a payload with the given `type` and `command` fields is refused with.
pub open spec fn request_error(
    kind: Seq<char>,
    command: Seq<char>,
    e: DeserializationError,
) -> bool {
    if kind != "request"@ {
        e matches DeserializationError::StringToEnumParseError { enum_name, value } && enum_name@
            == "type"@ && value@ == kind
    } else {
        e matches DeserializationError::StringToEnumParseError { enum_name, value } && enum_name@
            == "Command"@ && value@ == command
    }
}

impl Request {
    /// The request whose payload has the given fields: `type` must be `request`, and
    /// `command` must name a request of the catalog.
    pub fn from_parts(seq: i64, kind: &str, command: &str, arguments: Option<String>) -> (r: Result<
        Request,
        DeserializationError,
    >)
        ensures
            r is Ok <==> is_request_of_catalog(kind@, command@),
            r is Ok ==> r->Ok_0.seq == seq && command_tag(r->Ok_0.command) == command@
                && r->Ok_0.arguments == arguments,
            r is Err ==> (r matches Err(e) && request_error(kind@, command@, e)),
    {
        if !same_text(kind, "request") {
            return Err(
                DeserializationError::StringToEnumParseError {
                    enum_name: "type".to_owned(),
                    value: kind.to_owned(),
                },
            );
        }
        match Command::from_tag(command) {
            Ok(c) => Ok(Request { seq, command: c, arguments }),
            Err(e) => Err(e),
        }
    }
}

/// Whether the answer to `c` carries a body, so that a bare acknowledgement cannot answer it.
pub open spec fn needs_body(c: Command) -> bool {
    !matches!(c,
        Command::Attach | Command::Cancel | Command::ConfigurationDone | Command::Disconnect
        | Command::Goto | Command::Launch | Command::Next | Command::Pause | Command::Restart
        | Command::RestartFrame | Command::ReverseContinue | Command::StepBack | Command::StepIn
        | Command::StepOut | Command::Terminate | Command::TerminateThreads)
}

impl Command {
    /// Whether the answer to this command carries a body.
    pub fn needs_body(&self) -> (r: bool)
        ensures
            r == needs_body(*self),
    {
        !matches!(self,
            Command::Attach | Command::Cancel | Command::ConfigurationDone | Command::Disconnect
            | Command::Goto | Command::Launch | Command::Next | Command::Pause | Command::Restart
            | Command::RestartFrame | Command::ReverseContinue | Command::StepBack
            | Command::StepIn | Command::StepOut | Command::Terminate | Command::TerminateThreads)
    }
}

impl Response {
    /// A successful acknowledgement of `request`, for the commands whose answer has no body.
    pub fn make_ack(request: &Request) -> (r: Result<Response, AdapterError>)
        ensures
            r is Ok <==> !needs_body(request.command),
            r is Ok ==> r->Ok_0.request_seq == request.seq && r->Ok_0.success
                && r->Ok_0.message is None && r->Ok_0.body == Some(
                ResponseBody::Ack(request.command),
            ),
            r is Err ==> r matches Err(AdapterError::ResponseConstructError),
    {
        if request.command.needs_body() {
            Err(AdapterError::ResponseConstructError)
        } else {
            Ok(
                Response {
                    request_seq: request.seq,
                    success: true,
                    message: None,
                    body: Some(ResponseBody::Ack(request.command)),
                },
            )
        }
    }

    /// The response that sends nothing: the request is answered later, out of band.
    pub fn empty() -> (r: Response)
        ensures
            r.body == Some(ResponseBody::Empty),
            r.success,
            r.message is None,
            r.request_seq == 0,
    {
        Response { request_seq: 0, success: true, message: None, body: Some(ResponseBody::Empty) }
    }
}

impl Request {
    /// A successful answer to this request, with `body` as JSON text.
    pub fn success(&self, body: String) -> (r: Response)
        ensures
            r.request_seq == self.seq,
            r.success,
            r.message is None,
            r.body == Some(ResponseBody::Body(self.command, body)),
    {
        Response {
            request_seq: self.seq,
            success: true,
            message: None,
            body: Some(ResponseBody::Body(self.command, body)),
        }
    }

    /// A failed answer to this request, with a short error text.
    pub fn error(&self, text: String) -> (r: Response)
        ensures
            r.request_seq == self.seq,
            !r.success,
            r.message == Some(ResponseMessage::Error(text)),
            r.body == Some(ResponseBody::Ack(self.command)),
    {
        Response {
            request_seq: self.seq,
            success: false,
            message: Some(ResponseMessage::Error(text)),
            body: Some(ResponseBody::Ack(self.command)),
        }
    }
}

impl BaseMessage {
    /// The compact JSON text of this message.
    pub fn to_json(&self) -> (r: Vec<u8>)
        ensures
            r@ == message_json(self.seq as int, self.message),
    {
        let mut out: Vec<u8> = Vec::new();
        push_message_json(&mut out, self.seq, &self.message);
        assert(out@ =~= message_json(self.seq as int, self.message));
        out
    }
}

} // verus!
