//! The envd daemon inside a sandbox: the requests it is sent and the events
//! it answers with.

use vstd::prelude::*;

use crate::config::{ConfigView, ServerConfig};
use crate::connect;
use crate::connect::{ConnectFrame, FrameView};
use crate::error::{AppError, AppErrorView};
use crate::json;
use crate::json::JsonTree;
use crate::messages::{EnvdCall, EnvdCallView};
use crate::outbound;
use crate::outbound::{OutboundRequest, OutboundView};
use crate::strings;

verus! {

/// envd's Connect-RPC port inside every sandbox.
pub const ENVD_PORT: u16 = 49983;

/// Connect-RPC streaming content type.
pub const CONNECT_JSON: &'static str = "application/connect+json";

/// envd's built-in root credential.
pub const ENVD_BASIC_AUTH: &'static str = "Basic cm9vdDo=";

/// Server-side deadline handed to envd for the Start stream (24 h). Generous
/// on purpose: the idle timeout is what reaps inactive sessions.
pub const ENVD_STREAM_TIMEOUT_MS: &'static str = "86400000";

/// How long to wait for envd's start event before giving up on the session,
/// in seconds.
pub const START_EVENT_TIMEOUT_SECS: u64 = 30;

/// Deadline for one envd HTTP call up to the response headers, in seconds.
pub const ENVD_CALL_TIMEOUT_SECS: u64 = 10;

// ── Addressing ──────────────────────────────────────────────────────────

/// The URL of an envd method behind the sandbox proxy.
pub open spec fn envd_url_of(config: ConfigView, method: Seq<char>) -> Seq<char> {
    strings::trim_end_char_of(config.sandbox_proxy_url, '/') + "/process.Process/"@ + method
}

/// The host that the proxy routes to a sandbox's envd.
pub open spec fn envd_host_of(sandbox_id: Seq<char>, domain: Seq<char>) -> Seq<char> {
    strings::decimal_of(ENVD_PORT as nat) + "-"@ + sandbox_id + "."@ + domain
}

/// The URL of an envd method behind the sandbox proxy.
pub fn envd_url(config: &ServerConfig, method: &str) -> (url: String)
    ensures
        url@ == envd_url_of(config@, method@),
{
    let mut url = strings::trim_end_char(config.sandbox_proxy_url.as_str(), '/').to_owned();
    url.append("/process.Process/");
    url.append(method);
    url
}

/// The host that the proxy routes to a sandbox's envd.
pub fn envd_host(sandbox_id: &str, domain: &str) -> (host: String)
    ensures
        host@ == envd_host_of(sandbox_id@, domain@),
{
    let mut host = strings::decimal(ENVD_PORT as u64);
    host.append("-");
    host.append(sandbox_id);
    host.append(".");
    host.append(domain);
    host
}

// ── Requests ────────────────────────────────────────────────────────────

/// The JSON object that names a process.
pub open spec fn process_tree(pid: i64) -> JsonTree {
    json::object_of(seq![("pid"@, JsonTree::Int(pid))])
}

/// The JSON object that gives a PTY size.
pub open spec fn pty_tree(cols: u32, rows: u32) -> JsonTree {
    json::object_of(
        seq![
            (
                "size"@,
                json::object_of(
                    seq![
                        ("rows"@, JsonTree::Int(rows as i64)),
                        ("cols"@, JsonTree::Int(cols as i64)),
                    ],
                ),
            ),
        ],
    )
}

/// The JSON body of the Start request: an interactive login shell on a PTY.
pub open spec fn start_tree(cols: u32, rows: u32) -> JsonTree {
    json::object_of(
        seq![
            (
                "process"@,
                json::object_of(
                    seq![
                        ("cmd"@, JsonTree::Text("/bin/bash"@)),
                        (
                            "args"@,
                            JsonTree::Array(seq![JsonTree::Text("-i"@), JsonTree::Text("-l"@)]),
                        ),
                        (
                            "envs"@,
                            json::object_of(
                                seq![
                                    ("TERM"@, JsonTree::Text("xterm-256color"@)),
                                    ("LANG"@, JsonTree::Text("C.UTF-8"@)),
                                    ("LC_ALL"@, JsonTree::Text("C.UTF-8"@)),
                                ],
                            ),
                        ),
                    ],
                ),
            ),
            ("pty"@, pty_tree(cols, rows)),
        ],
    )
}

/// The method and the JSON body of a unary call.
pub open spec fn call_tree(call: EnvdCallView) -> (Seq<char>, JsonTree) {
    match call {
        EnvdCallView::SendInput { pid, data } => (
            "SendInput"@,
            json::object_of(
                seq![
                    ("process"@, process_tree(pid)),
                    ("input"@, json::object_of(seq![("pty"@, JsonTree::Text(data))])),
                ],
            ),
        ),
        EnvdCallView::Update { pid, rows, cols } => (
            "Update"@,
            json::object_of(seq![("process"@, process_tree(pid)), ("pty"@, pty_tree(cols, rows))]),
        ),
        EnvdCallView::Kill { pid } => (
            "SendSignal"@,
            json::object_of(
                seq![
                    ("process"@, process_tree(pid)),
                    ("signal"@, JsonTree::Text("SIGNAL_SIGKILL"@)),
                ],
            ),
        ),
    }
}

/// The headers of a unary call.
pub open spec fn unary_headers(host: Seq<char>) -> Seq<(Seq<char>, Seq<char>)> {
    seq![
        ("Host"@, host),
        ("Content-Type"@, "application/json"@),
        ("Connect-Protocol-Version"@, "1"@),
        ("Authorization"@, ENVD_BASIC_AUTH@),
    ]
}

/// The headers of the Start request.
pub open spec fn start_headers(host: Seq<char>) -> Seq<(Seq<char>, Seq<char>)> {
    seq![
        ("Host"@, host),
        ("Content-Type"@, CONNECT_JSON@),
        ("Connect-Protocol-Version"@, "1"@),
        ("Connect-Content-Encoding"@, "identity"@),
        ("Connect-Timeout-Ms"@, ENVD_STREAM_TIMEOUT_MS@),
        ("Authorization"@, ENVD_BASIC_AUTH@),
    ]
}

/// The request of a unary call with this JSON body.
pub open spec fn unary_request_of(
    config: ConfigView,
    host: Seq<char>,
    method: Seq<char>,
    body: Seq<u8>,
) -> OutboundView {
    OutboundView { url: envd_url_of(config, method), headers: unary_headers(host), body }
}

/// The Start request with this JSON payload, wrapped into one envelope.
pub open spec fn start_request_of(
    config: ConfigView,
    host: Seq<char>,
    payload: Seq<u8>,
) -> OutboundView {
    OutboundView {
        url: envd_url_of(config, "Start"@),
        headers: start_headers(host),
        body: connect::envelope_of(0, payload),
    }
}

/// The request of a unary call.
pub open spec fn envd_unary_of(
    config: ConfigView,
    host: Seq<char>,
    call: EnvdCallView,
) -> OutboundView {
    unary_request_of(config, host, call_tree(call).0, json::json_encoding(call_tree(call).1))
}

/// The Start request for a PTY of the given size.
pub open spec fn envd_start_of(
    config: ConfigView,
    host: Seq<char>,
    cols: u32,
    rows: u32,
) -> OutboundView {
    start_request_of(config, host, json::json_encoding(start_tree(cols, rows)))
}

fn process_value(pid: i64) -> (value: serde_json::Value)
    ensures
        json::json_view(value) == process_tree(pid),
{
    json::object1("pid", json::int_value(pid))
}

fn pty_value(cols: u32, rows: u32) -> (value: serde_json::Value)
    ensures
        json::json_view(value) == pty_tree(cols, rows),
{
    proof {
        reveal_strlit("rows");
        reveal_strlit("cols");
        assert("rows"@[0] != "cols"@[0]);
    }
    json::object1(
        "size",
        json::object2("rows", json::int_value(rows as i64), "cols", json::int_value(cols as i64)),
    )
}

/// The payload of the Start request: an interactive login shell on a PTY of
/// the given size.
pub fn start_payload(cols: u32, rows: u32) -> (payload: serde_json::Value)
    ensures
        json::json_view(payload) == start_tree(cols, rows),
{
    proof {
        reveal_strlit("TERM");
        reveal_strlit("LANG");
        reveal_strlit("LC_ALL");
        reveal_strlit("cmd");
        reveal_strlit("args");
        reveal_strlit("envs");
        reveal_strlit("process");
        reveal_strlit("pty");
        assert("TERM"@[0] != "LANG"@[0]);
        assert("TERM"@.len() != "LC_ALL"@.len());
        assert("cmd"@.len() != "args"@.len());
        assert("args"@[0] != "envs"@[0]);
        assert("process"@.len() != "pty"@.len());
    }
    let envs = json::object3(
        "TERM",
        json::text_value("xterm-256color"),
        "LANG",
        json::text_value("C.UTF-8"),
        "LC_ALL",
        json::text_value("C.UTF-8"),
    );
    let mut args: Vec<serde_json::Value> = Vec::new();
    args.push(json::text_value("-i"));
    args.push(json::text_value("-l"));
    assert(json::value_views(args@) =~= seq![JsonTree::Text("-i"@), JsonTree::Text("-l"@)]);
    let process = json::object3(
        "cmd",
        json::text_value("/bin/bash"),
        "args",
        json::array_value(args),
        "envs",
        envs,
    );
    json::object2("process", process, "pty", pty_value(cols, rows))
}

/// The method and the JSON body of a unary call.
pub fn call_payload(call: &EnvdCall) -> (payload: (&'static str, serde_json::Value))
    ensures
        (payload.0@, json::json_view(payload.1)) == call_tree(call@),
{
    proof {
        reveal_strlit("process");
        reveal_strlit("input");
        reveal_strlit("pty");
        reveal_strlit("signal");
        assert("process"@.len() != "input"@.len());
        assert("process"@.len() != "pty"@.len());
        assert("process"@.len() != "signal"@.len());
    }
    match call {
        EnvdCall::SendInput { pid, data } => (
            "SendInput",
            json::object2(
                "process",
                process_value(*pid),
                "input",
                json::object1("pty", json::text_value(data.as_str())),
            ),
        ),
        EnvdCall::Update { pid, rows, cols } => (
            "Update",
            json::object2("process", process_value(*pid), "pty", pty_value(*cols, *rows)),
        ),
        EnvdCall::Kill { pid } => (
            "SendSignal",
            json::object2(
                "process",
                process_value(*pid),
                "signal",
                json::text_value("SIGNAL_SIGKILL"),
            ),
        ),
    }
}

/// The request of a unary call with this JSON body: no Connect envelope.
pub fn unary_request(
    config: &ServerConfig,
    host: &str,
    method: &str,
    body: Vec<u8>,
) -> (request: OutboundRequest)
    ensures
        request@ == unary_request_of(config@, host@, method@, body@),
{
    let mut headers: Vec<(String, String)> = Vec::new();
    assert(outbound::header_views(headers@) =~= seq![]);
    outbound::push_header(&mut headers, "Host", host);
    outbound::push_header(&mut headers, "Content-Type", "application/json");
    outbound::push_header(&mut headers, "Connect-Protocol-Version", "1");
    outbound::push_header(&mut headers, "Authorization", ENVD_BASIC_AUTH);
    assert(outbound::header_views(headers@) =~= unary_headers(host@));
    OutboundRequest { url: envd_url(config, method), headers, body }
}

/// The Start request with this JSON payload, which goes in one Connect
/// envelope.
pub fn start_request(
    config: &ServerConfig,
    host: &str,
    payload: &[u8],
) -> (request: OutboundRequest)
    ensures
        request@ == start_request_of(config@, host@, payload@),
{
    let mut headers: Vec<(String, String)> = Vec::new();
    assert(outbound::header_views(headers@) =~= seq![]);
    outbound::push_header(&mut headers, "Host", host);
    outbound::push_header(&mut headers, "Content-Type", CONNECT_JSON);
    outbound::push_header(&mut headers, "Connect-Protocol-Version", "1");
    outbound::push_header(&mut headers, "Connect-Content-Encoding", "identity");
    outbound::push_header(&mut headers, "Connect-Timeout-Ms", ENVD_STREAM_TIMEOUT_MS);
    outbound::push_header(&mut headers, "Authorization", ENVD_BASIC_AUTH);
    assert(outbound::header_views(headers@) =~= start_headers(host@));
    OutboundRequest {
        url: envd_url(config, "Start"),
        headers,
        body: connect::connect_envelope(payload),
    }
}

/// The request of a unary envd call (SendInput / Update / SendSignal).
pub fn envd_unary(config: &ServerConfig, host: &str, call: &EnvdCall) -> (request: OutboundRequest)
    ensures
        request@ == envd_unary_of(config@, host@, call@),
{
    let (method, payload) = call_payload(call);
    let body = json::encode_json(&payload).unwrap();
    unary_request(config, host, method, body)
}

/// The POST of process.Process/Start.
pub fn envd_start(
    config: &ServerConfig,
    host: &str,
    cols: u32,
    rows: u32,
) -> (request: OutboundRequest)
    ensures
        request@ == envd_start_of(config@, host@, cols, rows),
{
    let payload = json::encode_json(&start_payload(cols, rows)).unwrap();
    start_request(config, host, payload.as_slice())
}

// ── Answers ─────────────────────────────────────────────────────────────

/// What became of an envd call.
#[derive(Debug, PartialEq, Eq)]
pub enum CallReply {
    /// No response headers came before the deadline.
    TimedOut,
    /// The request could not be made, for this reason.
    Failed(String),
    /// The response headers came, with this HTTP status.
    Status(u16),
}

/// What a [`CallReply`] says.
pub ghost enum CallReplyView {
    TimedOut,
    Failed(Seq<char>),
    Status(u16),
}

impl View for CallReply {
    type V = CallReplyView;

    open spec fn view(&self) -> CallReplyView {
        match self {
            CallReply::TimedOut => CallReplyView::TimedOut,
            CallReply::Failed(text) => CallReplyView::Failed(text@),
            CallReply::Status(code) => CallReplyView::Status(*code),
        }
    }
}

/// What `StatusCode` writes for an HTTP status: its number and its canonical
/// reason, or the text of the error where the number is no status.
pub uninterp spec fn status_line(code: u16) -> Seq<char>;

/// Calls `StatusCode::from_u16`, then `to_string` on what it gives. Claims
/// that the text depends on the number alone.
#[verifier::external_body]
fn status_text(code: u16) -> (text: String)
    ensures
        text@ == status_line(code),
{
    match axum::http::StatusCode::from_u16(code) {
        Ok(status) => status.to_string(),
        Err(error) => error.to_string(),
    }
}

/// The error of an envd call, `what` naming it and `line` writing the status
/// of its response; none where the response reports success.
pub open spec fn call_error_of(
    what: Seq<char>,
    reply: CallReplyView,
    line: Seq<char>,
) -> Option<AppErrorView> {
    match reply {
        CallReplyView::TimedOut => Some(
            AppErrorView::Internal(
                "envd "@ + what + " request timed out after "@ + strings::decimal_of(
                    ENVD_CALL_TIMEOUT_SECS as nat,
                ) + "s"@,
            ),
        ),
        CallReplyView::Failed(text) => Some(
            AppErrorView::Internal("envd "@ + what + " request failed: "@ + text),
        ),
        CallReplyView::Status(code) => if 200 <= code < 300 {
            None
        } else {
            Some(AppErrorView::Internal("envd "@ + what + " returned HTTP "@ + line))
        },
    }
}

/// The status of a response; 0 where there was none.
pub open spec fn reply_status(reply: CallReplyView) -> u16 {
    match reply {
        CallReplyView::Status(code) => code,
        _ => 0,
    }
}

/// What an envd call came to, `what` naming it and `line` writing the status
/// of its response.
pub fn call_outcome(what: &str, reply: CallReply, line: &str) -> (outcome: Result<(), AppError>)
    ensures
        match outcome {
            Ok(_) => call_error_of(what@, reply@, line@) is None,
            Err(error) => call_error_of(what@, reply@, line@) == Some(error@),
        },
{
    let mut text = "envd ".to_owned();
    text.append(what);
    match reply {
        CallReply::TimedOut => {
            text.append(" request timed out after ");
            text.append(strings::decimal(ENVD_CALL_TIMEOUT_SECS).as_str());
            text.append("s");
            Err(AppError::Internal(text))
        },
        CallReply::Failed(reason) => {
            text.append(" request failed: ");
            text.append(reason.as_str());
            Err(AppError::Internal(text))
        },
        CallReply::Status(code) => if 200 <= code && code < 300 {
            Ok(())
        } else {
            text.append(" returned HTTP ");
            text.append(line);
            Err(AppError::Internal(text))
        },
    }
}

/// What an envd call came to. `what` names it: the method of a unary call,
/// `terminal start` for the Start request.
pub fn call_result(what: &str, reply: CallReply) -> (outcome: Result<(), AppError>)
    ensures
        match outcome {
            Ok(_) => call_error_of(what@, reply@, status_line(reply_status(reply@))) is None,
            Err(error) => call_error_of(what@, reply@, status_line(reply_status(reply@))) == Some(
                error@,
            ),
        },
{
    let code: u16 = match &reply {
        CallReply::Status(code) => *code,
        _ => 0,
    };
    let line = status_text(code);
    call_outcome(what, reply, line.as_str())
}

// ── Events ──────────────────────────────────────────────────────────────

/// What a single envd data frame means for the terminal client.
#[derive(Debug, PartialEq, Eq)]
pub enum EnvdEvent {
    /// Base64-encoded bytes read from the PTY.
    Output(String),
    /// The shell is gone, with this code where it is known.
    Exit(Option<i64>),
}

/// What an [`EnvdEvent`] says.
pub ghost enum EnvdEventView {
    Output(Seq<char>),
    Exit(Option<i64>),
}

impl View for EnvdEvent {
    type V = EnvdEventView;

    open spec fn view(&self) -> EnvdEventView {
        match self {
            EnvdEvent::Output(data) => EnvdEventView::Output(data@),
            EnvdEvent::Exit(code) => EnvdEventView::Exit(*code),
        }
    }
}

/// What parsing a JSON document came to.
pub open spec fn parsed_result(parsed: Result<serde_json::Value, String>) -> Result<
    JsonTree,
    Seq<char>,
> {
    match parsed {
        Ok(value) => Ok(json::json_view(value)),
        Err(text) => Err(text@),
    }
}

/// The code in an `exit status N` text.
pub open spec fn exit_status_of(status: Option<Seq<char>>) -> Option<i64> {
    match status {
        Some(text) => if "exit status "@.is_prefix_of(text) {
            strings::i64_of(strings::trim_of(text.skip("exit status "@.len() as int)))
        } else {
            None
        },
        None => None,
    }
}

/// The exit code that an end event reports: its `exitCode`, else the code in
/// its `status`.
pub open spec fn exit_code_of(end: JsonTree) -> Option<i64> {
    match json::int_in(json::member_of(end, "exitCode"@)) {
        Some(code) => Some(code),
        None => exit_status_of(json::text_in(json::member_of(end, "status"@))),
    }
}

/// The terminal event in an envd message, if it carries one.
pub open spec fn terminal_event_of(message: JsonTree) -> Option<EnvdEventView> {
    let event = json::member_of(message, "event"@);
    let pty = json::text_in(json::child_of(json::child_of(event, "data"@), "pty"@));
    let end = json::child_of(event, "end"@);
    if pty is Some {
        Some(EnvdEventView::Output(pty->0))
    } else if end is Some {
        Some(EnvdEventView::Exit(exit_code_of(end->0)))
    } else {
        None
    }
}

/// The pid that a start event reports.
pub open spec fn start_pid_of(message: JsonTree) -> Option<i64> {
    json::int_in(
        json::child_of(json::child_of(json::member_of(message, "event"@), "start"@), "pid"@),
    )
}

/// The error for a message that is no JSON.
pub open spec fn invalid_json(text: Seq<char>) -> AppErrorView {
    AppErrorView::Internal("invalid envd JSON event: "@ + text)
}

/// The terminal event in an envd document, if it carries one.
pub open spec fn data_event_of(document: Result<JsonTree, Seq<char>>) -> Result<
    Option<EnvdEventView>,
    AppErrorView,
> {
    match document {
        Ok(message) => Ok(terminal_event_of(message)),
        Err(text) => Err(invalid_json(text)),
    }
}

/// The error in the final document of a stream, as JSON text, if it carries
/// one.
pub open spec fn end_error_of(document: Result<JsonTree, Seq<char>>) -> Option<Seq<char>> {
    match document {
        Ok(message) => match json::member_of(message, "error"@) {
            Some(error) => Some(json::json_text(error)),
            None => None,
        },
        Err(_) => None,
    }
}

/// What a document says to a session that waits for its shell: the pid of
/// the shell, nothing yet, or why there will be none.
pub open spec fn start_event_of(
    end_stream: bool,
    document: Result<JsonTree, Seq<char>>,
) -> Result<Option<i64>, AppErrorView> {
    if end_stream {
        let detail = match end_error_of(document) {
            Some(text) => text,
            None => "envd ended the terminal stream"@,
        };
        Err(AppErrorView::Internal("envd terminal start failed: "@ + detail))
    } else {
        match document {
            Ok(message) => Ok(start_pid_of(message)),
            Err(text) => Err(invalid_json(text)),
        }
    }
}

/// What an attempt at a terminal event holds.
pub open spec fn event_result(event: Result<Option<EnvdEvent>, AppError>) -> Result<
    Option<EnvdEventView>,
    AppErrorView,
> {
    match event {
        Ok(Some(event)) => Ok(Some(event@)),
        Ok(None) => Ok(None),
        Err(error) => Err(error@),
    }
}

/// What an attempt at a start event holds.
pub open spec fn start_result(start: Result<Option<i64>, AppError>) -> Result<
    Option<i64>,
    AppErrorView,
> {
    match start {
        Ok(pid) => Ok(pid),
        Err(error) => Err(error@),
    }
}

/// The code in an `exit status N` text.
pub fn parse_exit_status(status: Option<&str>) -> (code: Option<i64>)
    ensures
        code == exit_status_of(strings::option_str(status)),
{
    match status {
        Some(text) => match strings::strip_prefix(text, "exit status ") {
            Some(rest) => strings::parse_i64(strings::trim(rest)),
            None => None,
        },
        None => None,
    }
}

/// The terminal event in an envd message, if it carries one.
pub fn terminal_event(message: &serde_json::Value) -> (event: Option<EnvdEvent>)
    ensures
        match event {
            Some(e) => terminal_event_of(json::json_view(*message)) == Some(e@),
            None => terminal_event_of(json::json_view(*message)) is None,
        },
{
    let event = json::child(Some(message), "event");
    if event.is_none() {
        return None;
    }
    if let Some(pty) = json::text_at(json::child(json::child(event, "data"), "pty")) {
        return Some(EnvdEvent::Output(pty.to_owned()));
    }
    let end = json::child(event, "end");
    if end.is_some() {
        let code = match json::int_at(json::child(end, "exitCode")) {
            Some(code) => Some(code),
            None => parse_exit_status(json::text_at(json::child(end, "status"))),
        };
        return Some(EnvdEvent::Exit(code));
    }
    None
}

/// The error for a message that is no JSON.
fn invalid_json_error(reason: &str) -> (error: AppError)
    ensures
        error@ == invalid_json(reason@),
{
    let mut text = "invalid envd JSON event: ".to_owned();
    text.append(reason);
    AppError::Internal(text)
}

/// The terminal event in a data frame that parsed to `parsed`.
pub fn data_event(parsed: Result<serde_json::Value, String>) -> (event: Result<
    Option<EnvdEvent>,
    AppError,
>)
    ensures
        event_result(event) == data_event_of(parsed_result(parsed)),
{
    match parsed {
        Ok(message) => Ok(terminal_event(&message)),
        Err(text) => Err(invalid_json_error(text.as_str())),
    }
}

/// Parse a non-end-stream envelope payload. Gives Ok(None) for frames that
/// carry no terminal-relevant event (keepalives, stdout/stderr data in
/// non-PTY mode, the start event once consumed).
pub fn parse_data_frame(payload: &[u8]) -> (event: Result<Option<EnvdEvent>, AppError>)
    ensures
        event_result(event) == data_event_of(json::json_document(payload@)),
{
    data_event(json::parse_json(payload))
}

/// The error in the final message of a stream that parsed to `parsed`.
pub fn end_error(parsed: Result<serde_json::Value, String>) -> (detail: Option<String>)
    ensures
        strings::option_text(detail) == end_error_of(parsed_result(parsed)),
{
    match parsed {
        Ok(message) => match json::child(Some(&message), "error") {
            Some(error) => Some(json::render_json(error)),
            None => None,
        },
        Err(_) => None,
    }
}

/// Extract the end-stream error message, if the final envelope carries one.
pub fn end_stream_error(payload: &[u8]) -> (detail: Option<String>)
    ensures
        strings::option_text(detail) == end_error_of(json::json_document(payload@)),
{
    end_error(json::parse_json(payload))
}

/// What a frame that parsed to `parsed` says to a session that waits for its
/// shell.
pub fn start_event(end_stream: bool, parsed: Result<serde_json::Value, String>) -> (start: Result<
    Option<i64>,
    AppError,
>)
    ensures
        start_result(start) == start_event_of(end_stream, parsed_result(parsed)),
{
    if end_stream {
        let mut text = "envd terminal start failed: ".to_owned();
        match end_error(parsed) {
            Some(detail) => text.append(detail.as_str()),
            None => text.append("envd ended the terminal stream"),
        }
        return Err(AppError::Internal(text));
    }
    match parsed {
        Ok(message) => Ok(
            json::int_at(
                json::child(json::child(json::child(Some(&message), "event"), "start"), "pid"),
            ),
        ),
        Err(text) => Err(invalid_json_error(text.as_str())),
    }
}

/// What the next frame of the stream says to a session that waits for its
/// shell.
pub open spec fn wait_for_start_of(frame: Option<FrameView>) -> Result<Option<i64>, AppErrorView> {
    match frame {
        Some(f) => start_event_of(f.is_end_stream(), json::json_document(f.payload)),
        None => Err(AppErrorView::Internal("envd terminal stream ended before start event"@)),
    }
}

/// What an optional frame holds.
pub open spec fn frame_option(frame: Option<ConnectFrame>) -> Option<FrameView> {
    match frame {
        Some(f) => Some(f@),
        None => None,
    }
}

/// Take one frame while waiting for envd's `{"event":{"start":{"pid":N}}}`:
/// the pid once it is there, nothing while it is not, an error when the
/// stream ends without it.
pub fn wait_for_start(frame: Option<ConnectFrame>) -> (start: Result<Option<i64>, AppError>)
    ensures
        start_result(start) == wait_for_start_of(frame_option(frame)),
{
    match frame {
        Some(f) => start_event(f.is_end_stream(), json::parse_json(f.payload.as_slice())),
        None => Err(
            AppError::Internal("envd terminal stream ended before start event".to_owned()),
        ),
    }
}

/// The error for a shell that did not report in time.
pub fn start_timeout() -> (error: AppError)
    ensures
        error@ == AppErrorView::Internal("timed out waiting for envd start event"@),
{
    AppError::Internal("timed out waiting for envd start event".to_owned())
}

// ── Laws ────────────────────────────────────────────────────────────────

/// The Start request carries exactly one envelope, with no flags set and the
/// payload whole.
pub proof fn law_start_request_is_one_envelope(
    config: ConfigView,
    host: Seq<char>,
    payload: Seq<u8>,
)
    requires
        payload.len() <= u32::MAX,
    ensures
        connect::decode_frame(start_request_of(config, host, payload).body) == Some(
            (FrameView { flags: 0, payload }, Seq::<u8>::empty()),
        ),
{
    let envelope = connect::envelope_of(0, payload);
    connect::law_envelope_round_trip(0, payload, seq![]);
    assert(envelope + Seq::<u8>::empty() =~= envelope);
}

/// An `exit status N` text gives back every code N.
pub proof fn law_exit_status_reads_back(code: i64)
    ensures
        exit_status_of(Some("exit status "@ + strings::signed_decimal_of(code as int))) == Some(
            code,
        ),
{
    let size = if code < 0 {
        (-code) as nat
    } else {
        code as nat
    };
    let digits = strings::decimal_of(size);
    let number = strings::signed_decimal_of(code as int);
    let text = "exit status "@ + number;
    strings::lemma_decimal_reads_back(size);
    assert(text.skip("exit status "@.len() as int) =~= number);
    assert(strings::is_digit(digits[0]));
    assert(strings::is_digit(digits.last()));
    if code < 0 {
        assert(number.skip(1) =~= digits);
        assert(number.last() == digits.last());
    }
    strings::lemma_nothing_to_trim(number);
}

/// Every unary call names the process of its shell, and that of the teardown
/// asks for SIGKILL.
pub proof fn law_call_names_its_shell(call: EnvdCallView)
    ensures
        json::int_in(
            json::child_of(json::member_of(call_tree(call).1, "process"@), "pid"@),
        ) == Some(call.shell()),
        call is Kill ==> json::text_in(json::member_of(call_tree(call).1, "signal"@)) == Some(
            "SIGNAL_SIGKILL"@,
        ),
{
    reveal_strlit("process");
    reveal_strlit("input");
    reveal_strlit("pty");
    reveal_strlit("signal");
    assert("process"@.len() != "input"@.len());
    assert("process"@.len() != "pty"@.len());
    assert("process"@.len() != "signal"@.len());
    let process = process_tree(call.shell());
    json::lemma_object_of_one("pid"@, JsonTree::Int(call.shell()), "pid"@);
    match call {
        EnvdCallView::SendInput { data, .. } => {
            let input = json::object_of(seq![("pty"@, JsonTree::Text(data))]);
            json::lemma_object_of_two("process"@, process, "input"@, input, "process"@);
        },
        EnvdCallView::Update { rows, cols, .. } => {
            json::lemma_object_of_two(
                "process"@,
                process,
                "pty"@,
                pty_tree(cols, rows),
                "process"@,
            );
        },
        EnvdCallView::Kill { .. } => {
            let signal = JsonTree::Text("SIGNAL_SIGKILL"@);
            json::lemma_object_of_two("process"@, process, "signal"@, signal, "process"@);
            json::lemma_object_of_two("process"@, process, "signal"@, signal, "signal"@);
        },
    }
}

/// The message that reports an event of envd.
pub open spec fn event_message(kind: Seq<char>, name: Seq<char>, value: JsonTree) -> JsonTree {
    json::object_of(
        seq![
            (
                "event"@,
                json::object_of(seq![(kind, json::object_of(seq![(name, value)]))]),
            ),
        ],
    )
}

proof fn lemma_event_message(
    kind: Seq<char>,
    name: Seq<char>,
    value: JsonTree,
    other_kind: Seq<char>,
    other_name: Seq<char>,
)
    ensures
        ({
            let event = json::member_of(event_message(kind, name, value), "event"@);
            let inner = json::child_of(event, other_kind);
            &&& inner == (if other_kind == kind {
                Some(json::object_of(seq![(name, value)]))
            } else {
                None
            })
            &&& json::child_of(inner, other_name) == (if other_kind == kind && other_name == name {
                Some(value)
            } else {
                None
            })
        }),
{
    let inner = json::object_of(seq![(name, value)]);
    let event = json::object_of(seq![(kind, inner)]);
    json::lemma_object_of_one("event"@, event, "event"@);
    json::lemma_object_of_one(kind, inner, other_kind);
    json::lemma_object_of_one(name, value, other_name);
}

/// `{"event":{"start":{"pid":N}}}` reports the shell N, and nothing to the
/// client.
pub proof fn law_start_event_reports_the_shell(pid: i64)
    ensures
        start_pid_of(event_message("start"@, "pid"@, JsonTree::Int(pid))) == Some(pid),
        terminal_event_of(event_message("start"@, "pid"@, JsonTree::Int(pid))) is None,
{
    reveal_strlit("start");
    reveal_strlit("data");
    reveal_strlit("end");
    assert("start"@.len() != "data"@.len());
    assert("start"@.len() != "end"@.len());
    let value = JsonTree::Int(pid);
    lemma_event_message("start"@, "pid"@, value, "start"@, "pid"@);
    lemma_event_message("start"@, "pid"@, value, "data"@, "pty"@);
    lemma_event_message("start"@, "pid"@, value, "end"@, "pid"@);
}

/// `{"event":{"data":{"pty":D}}}` is the output D.
pub proof fn law_data_event_is_output(data: Seq<char>)
    ensures
        terminal_event_of(event_message("data"@, "pty"@, JsonTree::Text(data))) == Some(
            EnvdEventView::Output(data),
        ),
{
    lemma_event_message("data"@, "pty"@, JsonTree::Text(data), "data"@, "pty"@);
}

/// `{"event":{"end":{"exitCode":C}}}` is the exit with code C.
pub proof fn law_end_event_is_exit(code: i64)
    ensures
        terminal_event_of(event_message("end"@, "exitCode"@, JsonTree::Int(code))) == Some(
            EnvdEventView::Exit(Some(code)),
        ),
{
    reveal_strlit("data");
    reveal_strlit("end");
    assert("end"@.len() != "data"@.len());
    let value = JsonTree::Int(code);
    lemma_event_message("end"@, "exitCode"@, value, "data"@, "pty"@);
    lemma_event_message("end"@, "exitCode"@, value, "end"@, "exitCode"@);
}

proof fn lemma_pty_tree(cols: u32, rows: u32)
    ensures
        json::child_of(json::member_of(pty_tree(cols, rows), "size"@), "cols"@) == Some(
            JsonTree::Int(cols as i64),
        ),
        json::child_of(json::member_of(pty_tree(cols, rows), "size"@), "rows"@) == Some(
            JsonTree::Int(rows as i64),
        ),
{
    reveal_strlit("rows");
    reveal_strlit("cols");
    assert("rows"@[0] != "cols"@[0]);
    let r = JsonTree::Int(rows as i64);
    let c = JsonTree::Int(cols as i64);
    let size = json::object_of(seq![("rows"@, r), ("cols"@, c)]);
    json::lemma_object_of_one("size"@, size, "size"@);
    json::lemma_object_of_two("rows"@, r, "cols"@, c, "rows"@);
    json::lemma_object_of_two("rows"@, r, "cols"@, c, "cols"@);
}

/// The Start request asks for a PTY of exactly the size asked for.
pub proof fn law_start_asks_for_the_size(cols: u32, rows: u32)
    ensures
        json::at_path(Some(start_tree(cols, rows)), seq!["pty"@, "size"@, "cols"@]) == Some(
            JsonTree::Int(cols as i64),
        ),
        json::at_path(Some(start_tree(cols, rows)), seq!["pty"@, "size"@, "rows"@]) == Some(
            JsonTree::Int(rows as i64),
        ),
{
    let tree = start_tree(cols, rows);
    lemma_start_members(cols, rows);
    lemma_pty_tree(cols, rows);
    json::lemma_at_path(Some(tree), seq!["pty"@, "size"@, "cols"@]);
    json::lemma_at_path(Some(tree), seq!["pty"@, "size"@, "rows"@]);
}

/// What is to run in the sandbox.
pub open spec fn shell_tree() -> JsonTree {
    json::object_of(
        seq![
            ("cmd"@, JsonTree::Text("/bin/bash"@)),
            ("args"@, JsonTree::Array(seq![JsonTree::Text("-i"@), JsonTree::Text("-l"@)])),
            (
                "envs"@,
                json::object_of(
                    seq![
                        ("TERM"@, JsonTree::Text("xterm-256color"@)),
                        ("LANG"@, JsonTree::Text("C.UTF-8"@)),
                        ("LC_ALL"@, JsonTree::Text("C.UTF-8"@)),
                    ],
                ),
            ),
        ],
    )
}

proof fn lemma_start_members(cols: u32, rows: u32)
    ensures
        json::member_of(start_tree(cols, rows), "process"@) == Some(shell_tree()),
        json::member_of(start_tree(cols, rows), "pty"@) == Some(pty_tree(cols, rows)),
{
    reveal_strlit("process");
    reveal_strlit("pty");
    assert("process"@.len() != "pty"@.len());
    let pty = pty_tree(cols, rows);
    json::lemma_object_of_two("process"@, shell_tree(), "pty"@, pty, "process"@);
    json::lemma_object_of_two("process"@, shell_tree(), "pty"@, pty, "pty"@);
}

/// Whatever the size, the Start request asks for `/bin/bash -i -l` with a
/// terminal type and a UTF-8 locale.
pub proof fn law_start_asks_for_a_login_shell(cols: u32, rows: u32)
    ensures
        ({
            let tree = Some(start_tree(cols, rows));
            let text = |t: Seq<char>| Some(JsonTree::Text(t));
            &&& json::at_path(tree, seq!["process"@, "cmd"@]) == text("/bin/bash"@)
            &&& json::at_path(tree, seq!["process"@, "args"@]) == Some(
                JsonTree::Array(seq![JsonTree::Text("-i"@), JsonTree::Text("-l"@)]),
            )
            &&& json::at_path(tree, seq!["process"@, "envs"@, "TERM"@]) == text("xterm-256color"@)
            &&& json::at_path(tree, seq!["process"@, "envs"@, "LANG"@]) == text("C.UTF-8"@)
            &&& json::at_path(tree, seq!["process"@, "envs"@, "LC_ALL"@]) == text("C.UTF-8"@)
        }),
{
    let tree = Some(start_tree(cols, rows));
    reveal_strlit("TERM");
    reveal_strlit("LANG");
    reveal_strlit("LC_ALL");
    reveal_strlit("cmd");
    reveal_strlit("args");
    reveal_strlit("envs");
    assert("TERM"@[0] != "LANG"@[0]);
    assert("TERM"@.len() != "LC_ALL"@.len());
    assert("cmd"@.len() != "args"@.len());
    assert("args"@[0] != "envs"@[0]);
    let cmd = JsonTree::Text("/bin/bash"@);
    let args = JsonTree::Array(seq![JsonTree::Text("-i"@), JsonTree::Text("-l"@)]);
    let term = JsonTree::Text("xterm-256color"@);
    let lang = JsonTree::Text("C.UTF-8"@);
    let envs = json::object_of(seq![("TERM"@, term), ("LANG"@, lang), ("LC_ALL"@, lang)]);
    lemma_start_members(cols, rows);
    json::lemma_object_of_three("cmd"@, cmd, "args"@, args, "envs"@, envs, "cmd"@);
    json::lemma_object_of_three("cmd"@, cmd, "args"@, args, "envs"@, envs, "args"@);
    json::lemma_object_of_three("cmd"@, cmd, "args"@, args, "envs"@, envs, "envs"@);
    json::lemma_object_of_three("TERM"@, term, "LANG"@, lang, "LC_ALL"@, lang, "TERM"@);
    json::lemma_object_of_three("TERM"@, term, "LANG"@, lang, "LC_ALL"@, lang, "LANG"@);
    json::lemma_object_of_three("TERM"@, term, "LANG"@, lang, "LC_ALL"@, lang, "LC_ALL"@);
    json::lemma_at_path(tree, seq!["process"@, "cmd"@]);
    json::lemma_at_path(tree, seq!["process"@, "args"@]);
    json::lemma_at_path(tree, seq!["process"@, "envs"@, "TERM"@]);
    json::lemma_at_path(tree, seq!["process"@, "envs"@, "LANG"@]);
    json::lemma_at_path(tree, seq!["process"@, "envs"@, "LC_ALL"@]);
}

/// Input goes to the PTY of the shell whole, of whatever length.
pub proof fn law_input_call_carries_the_data(pid: i64, data: Seq<char>)
    ensures
        ({
            let (method, tree) = call_tree(EnvdCallView::SendInput { pid, data });
            &&& method == "SendInput"@
            &&& json::at_path(Some(tree), seq!["process"@, "pid"@]) == Some(JsonTree::Int(pid))
            &&& json::at_path(Some(tree), seq!["input"@, "pty"@]) == Some(JsonTree::Text(data))
        }),
{
    let call = EnvdCallView::SendInput { pid, data };
    let tree = call_tree(call).1;
    reveal_strlit("process");
    reveal_strlit("input");
    assert("process"@.len() != "input"@.len());
    let process = process_tree(pid);
    let input = json::object_of(seq![("pty"@, JsonTree::Text(data))]);
    json::lemma_object_of_one("pid"@, JsonTree::Int(pid), "pid"@);
    json::lemma_object_of_one("pty"@, JsonTree::Text(data), "pty"@);
    json::lemma_object_of_two("process"@, process, "input"@, input, "process"@);
    json::lemma_object_of_two("process"@, process, "input"@, input, "input"@);
    json::lemma_at_path(Some(tree), seq!["process"@, "pid"@]);
    json::lemma_at_path(Some(tree), seq!["input"@, "pty"@]);
}

/// A resize sets exactly the size of the call, on the PTY of its shell.
pub proof fn law_resize_call_carries_the_size(pid: i64, rows: u32, cols: u32)
    ensures
        ({
            let (method, tree) = call_tree(EnvdCallView::Update { pid, rows, cols });
            &&& method == "Update"@
            &&& json::at_path(Some(tree), seq!["process"@, "pid"@]) == Some(JsonTree::Int(pid))
            &&& json::at_path(Some(tree), seq!["pty"@, "size"@, "rows"@]) == Some(
                JsonTree::Int(rows as i64),
            )
            &&& json::at_path(Some(tree), seq!["pty"@, "size"@, "cols"@]) == Some(
                JsonTree::Int(cols as i64),
            )
        }),
{
    let tree = call_tree(EnvdCallView::Update { pid, rows, cols }).1;
    reveal_strlit("process");
    reveal_strlit("pty");
    assert("process"@.len() != "pty"@.len());
    let process = process_tree(pid);
    let pty = pty_tree(cols, rows);
    json::lemma_object_of_one("pid"@, JsonTree::Int(pid), "pid"@);
    lemma_pty_tree(cols, rows);
    json::lemma_object_of_two("process"@, process, "pty"@, pty, "process"@);
    json::lemma_object_of_two("process"@, process, "pty"@, pty, "pty"@);
    json::lemma_at_path(Some(tree), seq!["process"@, "pid"@]);
    json::lemma_at_path(Some(tree), seq!["pty"@, "size"@, "rows"@]);
    json::lemma_at_path(Some(tree), seq!["pty"@, "size"@, "cols"@]);
}

/// The call that ends a session sends SIGKILL to its shell.
pub proof fn law_kill_call_carries_the_signal(pid: i64)
    ensures
        ({
            let (method, tree) = call_tree(EnvdCallView::Kill { pid });
            &&& method == "SendSignal"@
            &&& json::at_path(Some(tree), seq!["process"@, "pid"@]) == Some(JsonTree::Int(pid))
            &&& json::at_path(Some(tree), seq!["signal"@]) == Some(
                JsonTree::Text("SIGNAL_SIGKILL"@),
            )
        }),
{
    let tree = call_tree(EnvdCallView::Kill { pid }).1;
    reveal_strlit("process");
    reveal_strlit("signal");
    assert("process"@.len() != "signal"@.len());
    let process = process_tree(pid);
    let signal = JsonTree::Text("SIGNAL_SIGKILL"@);
    json::lemma_object_of_one("pid"@, JsonTree::Int(pid), "pid"@);
    json::lemma_object_of_two("process"@, process, "signal"@, signal, "process"@);
    json::lemma_object_of_two("process"@, process, "signal"@, signal, "signal"@);
    json::lemma_at_path(Some(tree), seq!["process"@, "pid"@]);
    json::lemma_at_path(Some(tree), seq!["signal"@]);
}

/// A request goes to its method behind the proxy, however many slashes end
/// the proxy's URL, and names the sandbox and the domain whole.
pub proof fn law_requests_are_addressed(
    config: ConfigView,
    proxy: Seq<char>,
    slashes: nat,
    method: Seq<char>,
    sandbox_id: Seq<char>,
    domain: Seq<char>,
)
    requires
        proxy.len() > 0 ==> proxy.last() != '/',
        config.sandbox_proxy_url == proxy + Seq::new(slashes, |i: int| '/'),
    ensures
        envd_url_of(config, method) == proxy + "/process.Process/"@ + method,
        envd_host_of(sandbox_id, domain) == "49983-"@ + sandbox_id + "."@ + domain,
{
    strings::law_trim_end_char_takes_the_tail(proxy, '/', slashes);
    reveal_strlit("-");
    reveal_strlit("49983-");
    reveal_with_fuel(strings::decimal_of, 6);
    assert(strings::decimal_of(49983) =~= seq!['4', '9', '9', '8', '3']);
    assert("49983-"@ =~= strings::decimal_of(49983) + "-"@);
}

/// A unary call is sent as it is, to its method, under the name of its host.
pub proof fn law_unary_request(
    config: ConfigView,
    host: Seq<char>,
    method: Seq<char>,
    body: Seq<u8>,
)
    ensures
        unary_request_of(config, host, method, body) == (OutboundView {
            url: envd_url_of(config, method),
            headers: seq![
                ("Host"@, host),
                ("Content-Type"@, "application/json"@),
                ("Connect-Protocol-Version"@, "1"@),
                ("Authorization"@, "Basic cm9vdDo="@),
            ],
            body,
        }),
{
}

/// The Start request goes to its method, under the name of its host.
pub proof fn law_start_request(config: ConfigView, host: Seq<char>, payload: Seq<u8>)
    ensures
        start_request_of(config, host, payload).url == envd_url_of(config, "Start"@),
        start_request_of(config, host, payload).headers == seq![
            ("Host"@, host),
            ("Content-Type"@, "application/connect+json"@),
            ("Connect-Protocol-Version"@, "1"@),
            ("Connect-Content-Encoding"@, "identity"@),
            ("Connect-Timeout-Ms"@, "86400000"@),
            ("Authorization"@, "Basic cm9vdDo="@),
        ],
{
}

/// A call succeeded exactly where its response has a 2xx status; else the
/// error names the call and the cause, each whole.
pub proof fn law_call_outcome(what: Seq<char>, code: u16, text: Seq<char>, line: Seq<char>)
    ensures
        call_error_of(what, CallReplyView::Status(code), line) is None <==> 200 <= code <= 299,
        !(200 <= code <= 299) ==> call_error_of(what, CallReplyView::Status(code), line) == Some(
            AppErrorView::Internal("envd "@ + what + " returned HTTP "@ + line),
        ),
        call_error_of(what, CallReplyView::Failed(text), line) == Some(
            AppErrorView::Internal("envd "@ + what + " request failed: "@ + text),
        ),
        call_error_of(what, CallReplyView::TimedOut, line) == Some(
            AppErrorView::Internal("envd "@ + what + " request timed out after 10s"@),
        ),
        reply_status(CallReplyView::Status(code)) == code,
{
    reveal_strlit(" request timed out after 10s");
    reveal_strlit(" request timed out after ");
    reveal_strlit("s");
    reveal_with_fuel(strings::decimal_of, 3);
    assert(strings::decimal_of(10) =~= seq!['1', '0']);
    assert(" request timed out after "@ + strings::decimal_of(10) + "s"@
        =~= " request timed out after 10s"@);
    let start = "envd "@ + what;
    assert(start + " request timed out after "@ + strings::decimal_of(10) + "s"@ =~= start + (
    " request timed out after "@ + strings::decimal_of(10) + "s"@));
}

/// A status text gives a code exactly where it is `exit status ` and a number,
/// whitespace around the number aside.
pub proof fn law_exit_status_needs_its_words(text: Seq<char>, number: Seq<char>)
    ensures
        exit_status_of(Some("exit status "@ + number)) == strings::i64_of(strings::trim_of(number)),
        !"exit status "@.is_prefix_of(text) ==> exit_status_of(Some(text)) is None,
        exit_status_of(None) is None,
{
    let all = "exit status "@ + number;
    assert(all.skip("exit status "@.len() as int) =~= number);
    assert(all.take("exit status "@.len() as int) =~= "exit status "@);
}

/// What an event of envd means, whatever else its message holds: text at
/// `event.data.pty` is output, whole; else an `event.end` is an exit, with the
/// integer at `exitCode` or else the code in its `status`; else it is nothing.
pub proof fn law_events_are_understood(message: JsonTree, data: Seq<char>, code: i64)
    ensures
        ({
            let event = terminal_event_of(message);
            let pty = json::at_path(Some(message), seq!["event"@, "data"@, "pty"@]);
            let end = json::at_path(Some(message), seq!["event"@, "end"@]);
            let exit_code = json::at_path(Some(message), seq!["event"@, "end"@, "exitCode"@]);
            let status = json::at_path(Some(message), seq!["event"@, "end"@, "status"@]);
            &&& event == Some(EnvdEventView::Output(data)) <==> pty == Some(JsonTree::Text(data))
            &&& event is None <==> !(pty matches Some(JsonTree::Text(_))) && end is None
            &&& !(pty matches Some(JsonTree::Text(_))) && exit_code == Some(JsonTree::Int(code))
                ==> event == Some(EnvdEventView::Exit(Some(code)))
            &&& !(pty matches Some(JsonTree::Text(_))) && end is Some && !(exit_code matches Some(
                JsonTree::Int(_),
            )) ==> event == Some(
                EnvdEventView::Exit(
                    match status {
                        Some(JsonTree::Text(text)) => exit_status_of(Some(text)),
                        _ => None,
                    },
                ),
            )
        }),
{
    json::lemma_at_path(Some(message), seq!["event"@, "data"@, "pty"@]);
    json::lemma_at_path(Some(message), seq!["event"@, "end"@]);
    json::lemma_at_path(Some(message), seq!["event"@, "end"@, "exitCode"@]);
    json::lemma_at_path(Some(message), seq!["event"@, "end"@, "status"@]);
}

/// The shell is the integer at `event.start.pid`, whatever else the message
/// holds, and none is reported without one.
pub proof fn law_shell_is_the_reported_pid(message: JsonTree, pid: i64)
    ensures
        start_pid_of(message) == Some(pid) <==> json::at_path(
            Some(message),
            seq!["event"@, "start"@, "pid"@],
        ) == Some(JsonTree::Int(pid)),
        start_event_of(false, Ok(message)) == Ok::<Option<i64>, AppErrorView>(
            start_pid_of(message),
        ),
{
    json::lemma_at_path(Some(message), seq!["event"@, "start"@, "pid"@]);
}

/// The error of a last frame is its `error` member, as JSON text; a frame
/// without one, or that is no JSON, carries none.
pub proof fn law_last_frame_error(message: JsonTree, text: Seq<char>)
    ensures
        json::at_path(Some(message), seq!["error"@]) matches Some(error) ==> end_error_of(
            Ok(message),
        ) == Some(json::json_text(error)),
        json::at_path(Some(message), seq!["error"@]) is None ==> end_error_of(Ok(message)) is None,
        end_error_of(Err(text)) is None,
{
    json::lemma_at_path(Some(message), seq!["error"@]);
}

/// A session without a shell is told why: the error of the last frame, a frame
/// that is no JSON, or the end of the stream.
pub proof fn law_missing_shell_has_a_cause(
    document: Result<JsonTree, Seq<char>>,
    detail: Seq<char>,
    text: Seq<char>,
)
    ensures
        end_error_of(document) == Some(detail) ==> start_event_of(true, document) == Err::<
            Option<i64>,
            AppErrorView,
        >(AppErrorView::Internal("envd terminal start failed: "@ + detail)),
        end_error_of(document) is None ==> start_event_of(true, document) == Err::<
            Option<i64>,
            AppErrorView,
        >(
            AppErrorView::Internal(
                "envd terminal start failed: "@ + "envd ended the terminal stream"@,
            ),
        ),
        start_event_of(false, Err(text)) == Err::<Option<i64>, AppErrorView>(
            AppErrorView::Internal("invalid envd JSON event: "@ + text),
        ),
        data_event_of(Err(text)) == Err::<Option<EnvdEventView>, AppErrorView>(
            AppErrorView::Internal("invalid envd JSON event: "@ + text),
        ),
        wait_for_start_of(None) == Err::<Option<i64>, AppErrorView>(
            AppErrorView::Internal("envd terminal stream ended before start event"@),
        ),
{
}

/// A frame counts by its payload and its flags alone.
pub proof fn law_frame_is_taken_by_its_payload(frame: FrameView, message: JsonTree)
    ensures
        wait_for_start_of(Some(frame)) == start_event_of(
            (frame.flags as int / 2) % 2 == 1,
            json::json_document(frame.payload),
        ),
        data_event_of(Ok(message)) == Ok::<Option<EnvdEventView>, AppErrorView>(
            terminal_event_of(message),
        ),
{
    connect::law_end_stream_flag(frame.flags, frame.payload);
}

/// The Start request brings envd, as its only frame, a message that asks for a
/// PTY of exactly the size asked for.
pub proof fn law_start_request_brings_the_size(
    config: ConfigView,
    host: Seq<char>,
    cols: u32,
    rows: u32,
    message: JsonTree,
)
    requires
        message == start_tree(cols, rows),
        json::json_encoding(message).len() <= u32::MAX,
    ensures
        connect::decode_frame(envd_start_of(config, host, cols, rows).body) == Some(
            (FrameView { flags: 0, payload: json::json_encoding(message) }, Seq::<u8>::empty()),
        ),
        json::at_path(Some(message), seq!["pty"@, "size"@, "cols"@]) == Some(
            JsonTree::Int(cols as i64),
        ),
        json::at_path(Some(message), seq!["pty"@, "size"@, "rows"@]) == Some(
            JsonTree::Int(rows as i64),
        ),
{
    law_start_request_is_one_envelope(config, host, json::json_encoding(message));
    law_start_asks_for_the_size(cols, rows);
}

/// Each unary call goes to its own method, with its message as the body.
pub proof fn law_calls_go_to_their_methods(config: ConfigView, host: Seq<char>, call: EnvdCallView)
    ensures
        envd_unary_of(config, host, call).url == envd_url_of(
            config,
            match call {
                EnvdCallView::SendInput { .. } => "SendInput"@,
                EnvdCallView::Update { .. } => "Update"@,
                EnvdCallView::Kill { .. } => "SendSignal"@,
            },
        ),
        envd_unary_of(config, host, call).body == json::json_encoding(call_tree(call).1),
        envd_unary_of(config, host, call).headers[0] == ("Host"@, host),
{
}

/// Replies, events and what came of a read say exactly what they hold.
pub proof fn law_replies_say_what_they_hold(
    text: String,
    status: u16,
    code: Option<i64>,
    pid: Option<i64>,
    error: AppError,
    value: serde_json::Value,
    frame: ConnectFrame,
)
    ensures
        CallReply::TimedOut@ is TimedOut,
        CallReply::Failed(text)@ == CallReplyView::Failed(text@),
        CallReply::Status(status)@ == CallReplyView::Status(status),
        EnvdEvent::Output(text)@ == EnvdEventView::Output(text@),
        EnvdEvent::Exit(code)@ == EnvdEventView::Exit(code),
        parsed_result(Ok(value)) == Ok::<JsonTree, Seq<char>>(json::json_view(value)),
        parsed_result(Err(text)) == Err::<JsonTree, Seq<char>>(text@),
        event_result(Ok(Some(EnvdEvent::Output(text)))) == Ok::<
            Option<EnvdEventView>,
            AppErrorView,
        >(Some(EnvdEventView::Output(text@))),
        event_result(Ok(Some(EnvdEvent::Exit(code)))) == Ok::<Option<EnvdEventView>, AppErrorView>(
            Some(EnvdEventView::Exit(code)),
        ),
        event_result(Ok(None)) == Ok::<Option<EnvdEventView>, AppErrorView>(None),
        event_result(Err(error)) == Err::<Option<EnvdEventView>, AppErrorView>(error@),
        start_result(Ok(pid)) == Ok::<Option<i64>, AppErrorView>(pid),
        start_result(Err(error)) == Err::<Option<i64>, AppErrorView>(error@),
        frame_option(Some(frame)) == Some(frame@),
        frame_option(None) is None,
{
}

} // verus!
