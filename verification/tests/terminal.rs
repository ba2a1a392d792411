//! Terminal sessions from the handshake to the teardown.

use axum::body::Body;
use axum::extract::Request;
use axum::http::{HeaderMap, HeaderName, HeaderValue};
use cube_terminal::admission::{
    Admission, AdmissionAction, AdmissionStage, SandboxStatus, TerminalQuery, UpgradePlan,
    MAX_WS_MESSAGE_SIZE, NOT_ADMITTED,
};
use cube_terminal::audit::AuditRecord;
use cube_terminal::auth::{CallbackReply, MISSING_CREDENTIAL};
use cube_terminal::config::ServerConfig;
use cube_terminal::connect::{connect_envelope, ConnectFrameReader, FrameStep};
use cube_terminal::envd::{
    call_result, envd_start, envd_unary, wait_for_start, CallReply, ENVD_CALL_TIMEOUT_SECS,
};
use cube_terminal::error::AppError;
use cube_terminal::headers::HandshakeHeaders;
use cube_terminal::messages::{ClientMessage, EnvdCall, ServerMessage};
use cube_terminal::outbound::OutboundRequest;
use cube_terminal::rate_limit::{quota_verdict, rate_limit_key};
use cube_terminal::session::{
    stream_event, ClientEvent, Session, SessionAction, SessionEvent, SessionState, StreamEvent,
};
use cube_terminal::sessions::TerminalSessionTracker;

const SANDBOX_ID: &str = "sb-terminal-test";
const MOCK_PID: i64 = 4321;
const PATH: &str = "/cubeapi/v1/sandboxes/sb-terminal-test/terminal/ws";

fn config() -> ServerConfig {
    ServerConfig {
        auth_callback_url: None,
        cube_api_key: None,
        sandbox_proxy_url: "http://127.0.0.1:9000".to_string(),
        sandbox_domain: "cube.app".to_string(),
        terminal_max_sessions_per_sandbox: 8,
        terminal_idle_timeout_secs: 1800,
    }
}

fn headers(list: &[(&str, &str)]) -> HandshakeHeaders {
    let mut map = HeaderMap::new();
    for (name, value) in list {
        map.insert(
            HeaderName::from_bytes(name.as_bytes()).unwrap(),
            HeaderValue::from_str(value).unwrap(),
        );
    }
    HandshakeHeaders::read(&map)
}

fn query(cols: Option<u32>, rows: Option<u32>, token: Option<&str>) -> TerminalQuery {
    TerminalQuery { cols, rows, token: token.map(|t| t.to_string()) }
}

fn begin(
    config: &ServerConfig,
    query: TerminalQuery,
    list: &[(&str, &str)],
) -> (Admission, AdmissionAction) {
    Admission::begin(config, SANDBOX_ID.to_string(), query, &headers(list), PATH)
}

/// A handshake of an open server that passes all checks up to the lookup.
fn looked_up(config: &ServerConfig, list: &[(&str, &str)]) -> Admission {
    let (admission, action) = begin(config, query(None, None, None), list);
    assert!(matches!(action, AdmissionAction::LookUpStatus), "{:?}", action);
    admission
}

fn running(admission: &Admission, tracker: &mut TerminalSessionTracker) -> AdmissionAction {
    admission.status_known(Ok(SandboxStatus::Running), tracker)
}

fn plan(action: AdmissionAction) -> UpgradePlan {
    match action {
        AdmissionAction::Upgrade(plan) => plan,
        other => panic!("expected an upgrade, got {:?}", other),
    }
}

fn refusal(action: AdmissionAction) -> (AppError, Option<AuditRecord>) {
    match action {
        AdmissionAction::Reject { error, audit } => (error, audit),
        other => panic!("expected a refusal, got {:?}", other),
    }
}

fn asked(action: AdmissionAction) -> OutboundRequest {
    match action {
        AdmissionAction::AskCallback(request) => request,
        other => panic!("expected a callback request, got {:?}", other),
    }
}

fn header(request: &OutboundRequest, name: &str) -> Option<String> {
    request
        .headers
        .iter()
        .find(|(k, _)| k.eq_ignore_ascii_case(name))
        .map(|(_, v)| v.clone())
}

fn record(event: &str, pid: Option<i64>, client_ip: &str, reason: &str) -> AuditRecord {
    AuditRecord {
        event: event.to_string(),
        sandbox_id: SANDBOX_ID.to_string(),
        pid,
        user: String::new(),
        client_ip: client_ip.to_string(),
        reason: reason.to_string(),
    }
}

fn json(text: &str) -> serde_json::Value {
    serde_json::from_str(text).expect("JSON")
}

fn body(request: &OutboundRequest) -> serde_json::Value {
    serde_json::from_slice(&request.body).expect("JSON body")
}

/// What an open session makes of an envd message.
fn message(text: &str) -> SessionEvent {
    let mut reader = ConnectFrameReader::new();
    reader.push_chunk(&connect_envelope(text.as_bytes()));
    match reader.next_frame() {
        Ok(FrameStep::Frame(frame)) => SessionEvent::Stream(stream_event(Ok(Some(frame)))),
        other => panic!("expected a frame, got {:?}", other),
    }
}

/// A session that told its client of the shell.
fn ready_session(config: &ServerConfig) -> Session {
    let mut session = Session::new(
        config,
        SANDBOX_ID.to_string(),
        None,
        Some("10.0.0.1".to_string()),
        config.idle_timeout(),
    );
    assert_eq!(session.state(), SessionState::Starting);
    let started = call_result("terminal start", CallReply::Status(200));
    assert!(session.step(SessionEvent::StartAnswered(started)).is_empty());
    assert_eq!(session.state(), SessionState::AwaitingPid);

    let mut reader = ConnectFrameReader::new();
    reader.push_chunk(&connect_envelope(b"{\"event\":{\"keepalive\":{}}}"));
    reader.push_chunk(&connect_envelope(b"{\"event\":{\"start\":{\"pid\":4321}}}"));
    let mut actions = Vec::new();
    while let Ok(FrameStep::Frame(frame)) = reader.next_frame() {
        actions.append(&mut session.step(SessionEvent::ShellReported(wait_for_start(Some(frame)))));
    }
    assert_eq!(
        actions,
        vec![SessionAction::SendChecked(ServerMessage::Ready { pid: MOCK_PID })]
    );
    assert_eq!(
        session.step(SessionEvent::Sent(true)),
        vec![
            SessionAction::Audit(record("open", Some(MOCK_PID), "10.0.0.1", "")),
            SessionAction::ResetIdle,
        ]
    );
    assert_eq!(session.state(), SessionState::Open { pid: MOCK_PID });
    session
}

fn teardown(reason: &str) -> Vec<SessionAction> {
    vec![
        SessionAction::DropStream,
        SessionAction::Call(EnvdCall::Kill { pid: MOCK_PID }),
        SessionAction::SendClose,
        SessionAction::CloseSocket,
        SessionAction::Audit(record("close", Some(MOCK_PID), "10.0.0.1", reason)),
    ]
}

fn ended_by(last: Vec<SessionAction>, reason: &str) -> Vec<SessionAction> {
    let mut all = last;
    all.append(&mut teardown(reason));
    all
}

#[test]
fn happy_path_bridges_ws_and_envd_pty() {
    let config = config();
    let mut tracker = TerminalSessionTracker::new();
    let (admission, action) = begin(&config, query(Some(100), Some(30), None), &[]);
    assert!(matches!(action, AdmissionAction::LookUpStatus));
    let plan = plan(running(&admission, &mut tracker));
    assert_eq!((plan.cols, plan.rows), (100, 30));
    assert_eq!(plan.idle_timeout_secs, 1800);
    assert_eq!(plan.max_message_size, 64 * 1024);

    let mut session = ready_session(&config);
    let host = session.host().to_string();

    // The Start request goes out with the requested PTY size.
    let start = envd_start(&config, &host, plan.cols, plan.rows);
    assert_eq!(start.url, "http://127.0.0.1:9000/process.Process/Start");
    assert_eq!(header(&start, "Host").as_deref(), Some("49983-sb-terminal-test.cube.app"));
    let len = u32::from_be_bytes([start.body[1], start.body[2], start.body[3], start.body[4]]);
    assert_eq!(start.body[0], 0);
    assert_eq!(len as usize, start.body.len() - 5);
    let payload: serde_json::Value = serde_json::from_slice(&start.body[5..]).unwrap();
    assert_eq!(payload["pty"]["size"], json("{\"rows\": 30, \"cols\": 100}"));
    assert_eq!(payload["process"]["cmd"], json("\"/bin/bash\""));

    // Client input is forwarded to envd SendInput, and envd PTY data
    // frames come back as output messages.
    let input = "ZWNobyBoaQo=".to_string();
    let actions = session.step(SessionEvent::Client(ClientEvent::Text(Some(
        ClientMessage::Input { data: input.clone() },
    ))));
    let call = EnvdCall::SendInput { pid: MOCK_PID, data: input.clone() };
    let request = envd_unary(&config, &host, &call);
    assert_eq!(actions, vec![SessionAction::ResetIdle, SessionAction::Call(call)]);
    assert_eq!(request.url, "http://127.0.0.1:9000/process.Process/SendInput");
    assert_eq!(
        body(&request),
        json("{\"process\": {\"pid\": 4321}, \"input\": {\"pty\": \"ZWNobyBoaQo=\"}}")
    );
    assert_eq!(
        session.step(message("{\"event\": {\"data\": {\"pty\": \"ZWNobyBoaQo=\"}}}")),
        vec![
            SessionAction::ResetIdle,
            SessionAction::SendChecked(ServerMessage::Output { data: input }),
        ]
    );
    assert!(session.step(SessionEvent::Sent(true)).is_empty());

    // Resize is forwarded to envd Update.
    let actions = session.step(SessionEvent::Client(ClientEvent::Text(Some(
        ClientMessage::Resize { cols: 120, rows: 40 },
    ))));
    let call = EnvdCall::Update { pid: MOCK_PID, rows: 40, cols: 120 };
    let request = envd_unary(&config, &host, &call);
    assert_eq!(actions, vec![SessionAction::ResetIdle, SessionAction::Call(call)]);
    assert_eq!(request.url, "http://127.0.0.1:9000/process.Process/Update");
    assert_eq!(
        body(&request),
        json("{\"process\": {\"pid\": 4321}, \"pty\": {\"size\": {\"rows\": 40, \"cols\": 120}}}")
    );

    // An envd end event becomes an exit message, and teardown kills the
    // shell via SendSignal SIGKILL.
    assert_eq!(
        session.step(message("{\"event\": {\"end\": {\"exitCode\": 0}}}")),
        ended_by(
            vec![SessionAction::Send(ServerMessage::Exit { code: Some(0) })],
            "envd-exit"
        )
    );
    let request = envd_unary(&config, &host, &EnvdCall::Kill { pid: MOCK_PID });
    assert_eq!(request.url, "http://127.0.0.1:9000/process.Process/SendSignal");
    assert_eq!(
        body(&request),
        json("{\"process\": {\"pid\": 4321}, \"signal\": \"SIGNAL_SIGKILL\"}")
    );
}

#[test]
fn client_disconnect_kills_the_shell() {
    let mut session = ready_session(&config());
    assert_eq!(
        session.step(SessionEvent::Client(ClientEvent::Gone)),
        teardown("client-disconnect")
    );
    assert_eq!(session.state(), SessionState::Closed { shell: Some(MOCK_PID) });
}

#[test]
fn idle_timeout_terminates_session() {
    let mut config = config();
    config.terminal_idle_timeout_secs = 1;
    let mut session = ready_session(&config);
    assert_eq!(
        session.step(SessionEvent::Idle),
        ended_by(
            vec![
                SessionAction::Send(ServerMessage::Error {
                    message: "terminal session timed out after 1s of inactivity".to_string(),
                }),
                SessionAction::Audit(record("timeout", Some(MOCK_PID), "10.0.0.1", "")),
            ],
            "idle-timeout"
        )
    );
}

#[test]
fn output_activity_extends_idle_timeout() {
    let mut config = config();
    config.terminal_idle_timeout_secs = 1;
    let mut session = ready_session(&config);
    for _ in 0..5 {
        assert_eq!(
            session.step(message("{\"event\": {\"data\": {\"pty\": \"dGljaw==\"}}}")),
            vec![
                SessionAction::ResetIdle,
                SessionAction::SendChecked(ServerMessage::Output { data: "dGljaw==".to_string() }),
            ]
        );
        assert!(session.step(SessionEvent::Sent(true)).is_empty());
    }
    // Once the output stops and the client stays silent, the idle timeout
    // fires and the shell is reaped.
    let actions = session.step(SessionEvent::Idle);
    assert!(matches!(
        &actions[0],
        SessionAction::Send(ServerMessage::Error { message }) if message.contains("inactivity")
    ));
    assert!(actions.contains(&SessionAction::Call(EnvdCall::Kill { pid: MOCK_PID })));
}

#[test]
fn token_subprotocol_without_base_is_rejected() {
    let config = config();
    let mut tracker = TerminalSessionTracker::new();
    let admission = looked_up(&config, &[("sec-websocket-protocol", "cube-terminal.some-token")]);
    let (error, audit) = refusal(running(&admission, &mut tracker));
    assert_eq!(error.status_code(), 400);
    assert_eq!(
        error.message(),
        "offering a cube-terminal.<token> subprotocol requires also offering the base cube-terminal subprotocol"
    );
    assert_eq!(audit, None);
    assert_eq!(tracker.live_sessions(SANDBOX_ID), 0);
}

#[test]
fn rejects_when_callback_auth_fails_or_token_missing() {
    let mut config = config();
    config.auth_callback_url = Some("http://auth/auth".to_string());

    // Missing token.
    let (_, action) = begin(&config, query(None, None, None), &[("x-real-ip", "10.0.0.1")]);
    let (error, audit) = refusal(action);
    assert_eq!(error, AppError::Unauthorized(MISSING_CREDENTIAL.to_string()));
    assert_eq!(error.status_code(), 401);
    assert_eq!(audit, Some(record("auth-failure", None, "10.0.0.1", "credential-missing")));

    // Token present but callback denies.
    let (mut admission, action) = begin(&config, query(None, None, Some("bad-token")), &[]);
    asked(action);
    let (error, audit) = refusal(admission.callback_answered(CallbackReply::Status(403)));
    assert_eq!(
        error,
        AppError::Unauthorized("Authentication rejected by callback".to_string())
    );
    assert_eq!(audit, Some(record("auth-failure", None, "", "callback-rejected")));
}

#[test]
fn unreachable_callback_is_an_internal_error() {
    let mut config = config();
    config.auth_callback_url = Some("http://auth/auth".to_string());
    let (mut admission, action) = begin(&config, query(None, None, Some("token")), &[]);
    asked(action);
    let reply = CallbackReply::Unreachable("connection refused".to_string());
    let (error, audit) = refusal(admission.callback_answered(reply));
    assert_eq!(
        error,
        AppError::Internal("Auth callback unreachable: connection refused".to_string())
    );
    assert_eq!(error.status_code(), 500);
    assert_eq!(audit, Some(record("auth-failure", None, "", "")));
}

#[test]
fn callback_auth_forwards_path_method_and_bearer_token() {
    let mut config = config();
    config.auth_callback_url = Some("http://auth/auth".to_string());
    let (mut admission, action) = begin(&config, query(None, None, Some("good-token")), &[]);
    let request = asked(action);
    assert_eq!(request.url, "http://auth/auth");
    assert!(request.body.is_empty());
    assert_eq!(header(&request, "x-request-path").as_deref(), Some(PATH));
    assert_eq!(header(&request, "x-request-method").as_deref(), Some("GET"));
    assert_eq!(header(&request, "authorization").as_deref(), Some("Bearer good-token"));

    let action = admission.callback_answered(CallbackReply::Status(200));
    assert!(matches!(action, AdmissionAction::LookUpStatus));
    plan(running(&admission, &mut TerminalSessionTracker::new()));
}

#[test]
fn only_a_200_of_the_callback_lets_pass() {
    let mut config = config();
    config.auth_callback_url = Some("http://auth/auth".to_string());
    for status in [201, 204, 302, 401, 500] {
        let (mut admission, _) = begin(&config, query(None, None, Some("t")), &[]);
        let (error, _) = refusal(admission.callback_answered(CallbackReply::Status(status)));
        assert_eq!(error.status_code(), 401);
    }
}

#[test]
fn rejects_sandbox_that_is_not_running() {
    let mut tracker = TerminalSessionTracker::new();
    let admission = looked_up(&config(), &[]);
    let paused = Ok(SandboxStatus::Other("Paused".to_string()));
    let (error, audit) = refusal(admission.status_known(paused, &mut tracker));
    assert_eq!(error.status_code(), 409);
    assert_eq!(
        error.message(),
        "sandbox sb-terminal-test is not running (status: Paused)"
    );
    assert_eq!(audit, Some(record("rejected", None, "", "sandbox-not-running")));
    assert_eq!(tracker.live_sessions(SANDBOX_ID), 0);
}

#[test]
fn rejects_unknown_sandbox() {
    let mut tracker = TerminalSessionTracker::new();
    let admission = looked_up(&config(), &[]);
    let missing = Err(AppError::NotFound("no such sandbox".to_string()));
    let (error, audit) = refusal(admission.status_known(missing, &mut tracker));
    assert_eq!(error, AppError::NotFound("no such sandbox".to_string()));
    assert_eq!(error.status_code(), 404);
    assert_eq!(audit, Some(record("rejected", None, "", "sandbox-not-found")));
}

#[test]
fn failed_lookup_is_passed_on_without_a_record() {
    let mut tracker = TerminalSessionTracker::new();
    let admission = looked_up(&config(), &[]);
    let failed = Err(AppError::Internal("master down".to_string()));
    let (error, audit) = refusal(admission.status_known(failed, &mut tracker));
    assert_eq!(error, AppError::Internal("master down".to_string()));
    assert_eq!(audit, None);
}

#[test]
fn subprotocol_token_authenticates_without_query_param() {
    let mut config = config();
    config.auth_callback_url = Some("http://auth/auth".to_string());
    let offered = [("sec-websocket-protocol", "cube-terminal, cube-terminal.good-token")];
    let (mut admission, action) = begin(&config, query(None, None, None), &offered);
    let request = asked(action);
    assert_eq!(header(&request, "authorization").as_deref(), Some("Bearer good-token"));
    admission.callback_answered(CallbackReply::Status(200));
    // The server must select exactly the base subprotocol.
    let plan = plan(running(&admission, &mut TerminalSessionTracker::new()));
    assert_eq!(plan.protocol, Some("cube-terminal"));
}

#[test]
fn no_subprotocol_is_selected_when_none_was_offered() {
    let plan = plan(running(&looked_up(&config(), &[]), &mut TerminalSessionTracker::new()));
    assert_eq!(plan.protocol, None);
    assert_eq!((plan.cols, plan.rows), (80, 24));
    assert_eq!(plan.max_message_size, MAX_WS_MESSAGE_SIZE);
}

#[test]
fn origin_mismatch_is_forbidden_before_upgrade() {
    let list = [
        ("host", "127.0.0.1:8080"),
        ("origin", "http://evil.example.com"),
        ("x-forwarded-for", "10.0.0.1, 10.0.0.2"),
    ];
    let (_, action) = begin(&config(), query(None, None, None), &list);
    let (error, audit) = refusal(action);
    assert_eq!(error.status_code(), 403);
    assert_eq!(error.message(), "origin host does not match request host");
    assert_eq!(audit, Some(record("auth-failure", None, "10.0.0.1", "origin-mismatch")));
}

#[test]
fn matching_origin_upgrades() {
    for origin in ["http://127.0.0.1:8080", "http://127.0.0.1"] {
        let list = [("host", "127.0.0.1:8080"), ("origin", origin)];
        let admission = looked_up(&config(), &list);
        plan(running(&admission, &mut TerminalSessionTracker::new()));
    }
}

#[test]
fn per_sandbox_session_cap_returns_429() {
    let mut config = config();
    config.terminal_max_sessions_per_sandbox = 1;
    let mut tracker = TerminalSessionTracker::new();
    let first = plan(running(&looked_up(&config, &[]), &mut tracker));
    assert_eq!(tracker.live_sessions(SANDBOX_ID), 1);

    // A second concurrent session on the same sandbox exceeds the cap.
    let second = looked_up(&config, &[]);
    let (error, audit) = refusal(running(&second, &mut tracker));
    assert_eq!(error.status_code(), 429);
    assert_eq!(
        error.message(),
        "sandbox sb-terminal-test already has 1 terminal sessions"
    );
    assert_eq!(audit, Some(record("rejected", None, "", "session-limit")));
    assert_eq!(tracker.live_sessions(SANDBOX_ID), 1);

    // Closing the first session releases the slot.
    tracker.release(first.slot);
    plan(running(&second, &mut tracker));
}

#[test]
fn cap_of_zero_still_allows_one_session() {
    let mut config = config();
    config.terminal_max_sessions_per_sandbox = 0;
    config.terminal_idle_timeout_secs = 0;
    let mut tracker = TerminalSessionTracker::new();
    let plan = plan(running(&looked_up(&config, &[]), &mut tracker));
    assert_eq!(plan.idle_timeout_secs, 1);
    let (error, _) = refusal(running(&looked_up(&config, &[]), &mut tracker));
    assert_eq!(error.status_code(), 429);
}

#[test]
fn oversized_client_message_terminates_session() {
    let mut session = ready_session(&config());
    let reason = "Space limit exceeded: Message too long".to_string();
    let actions = session.step(SessionEvent::Client(ClientEvent::Failed(reason)));
    assert_eq!(
        actions,
        ended_by(
            vec![SessionAction::Send(ServerMessage::Error {
                message: "connection error: Space limit exceeded: Message too long".to_string(),
            })],
            "client-disconnect"
        )
    );
}

#[test]
fn hung_envd_call_times_out_and_the_pump_survives() {
    let mut session = ready_session(&config());
    let data = "ZWNobyBoaQo=".to_string();
    session.step(SessionEvent::Client(ClientEvent::Text(Some(ClientMessage::Input { data }))));
    // The call comes to nothing, which changes nothing for the session.
    assert_eq!(
        call_result("SendInput", CallReply::TimedOut),
        Err(AppError::Internal("envd SendInput request timed out after 10s".to_string()))
    );
    assert_eq!(ENVD_CALL_TIMEOUT_SECS, 10);
    assert_eq!(session.state(), SessionState::Open { pid: MOCK_PID });
    // Shell output is still delivered.
    let actions = session.step(message("{\"event\": {\"data\": {\"pty\": \"dGljaw==\"}}}"));
    assert!(actions.contains(&SessionAction::SendChecked(ServerMessage::Output {
        data: "dGljaw==".to_string(),
    })));
    // And teardown still reaps the shell afterwards.
    assert_eq!(
        session.step(SessionEvent::Client(ClientEvent::Gone)),
        teardown("client-disconnect")
    );
}

#[test]
fn handshake_is_rate_limited_when_auth_is_configured() {
    let request: Request = Request::builder()
        .method("GET")
        .uri("/cubeapi/v1/sandboxes/sb-terminal-test/terminal/ws?token=wrong-key")
        .body(Body::empty())
        .unwrap();
    // Both handshakes draw on one bucket: the first drains it and is refused
    // by the handler, the second by the limiter.
    assert_eq!(rate_limit_key(&request), "wrong-key");
    let mut config = config();
    config.cube_api_key = Some("secret-key".to_string());
    assert_eq!(quota_verdict(true), Ok(()));
    let (_, action) = begin(&config, query(None, None, Some("wrong-key")), &[]);
    let (error, _) = refusal(action);
    assert_eq!(error.status_code(), 401);
    assert_eq!(quota_verdict(false).unwrap_err().status_code(), 429);
}

#[test]
fn callback_auth_accepts_x_api_key_header() {
    let mut config = config();
    config.auth_callback_url = Some("http://auth/auth".to_string());
    let (mut admission, action) = begin(
        &config,
        query(None, None, None),
        &[("X-API-Key", "good-key")],
    );
    let request = asked(action);
    assert_eq!(header(&request, "x-api-key").as_deref(), Some("good-key"));
    assert_eq!(header(&request, "authorization"), None);
    admission.callback_answered(CallbackReply::Status(200));
    plan(running(&admission, &mut TerminalSessionTracker::new()));
}

#[test]
fn bearer_token_takes_priority_over_x_api_key() {
    let mut config = config();
    config.auth_callback_url = Some("http://auth/auth".to_string());
    let (_, action) = begin(
        &config,
        query(None, None, Some("good-token")),
        &[("X-API-Key", "other-key")],
    );
    let request = asked(action);
    assert_eq!(header(&request, "authorization").as_deref(), Some("Bearer good-token"));
    assert_eq!(header(&request, "x-api-key"), None);
}

#[test]
fn simple_key_auth_accepts_x_api_key_header() {
    let mut config = config();
    config.cube_api_key = Some("secret-key".to_string());

    let (_, action) = begin(&config, query(None, None, None), &[("X-API-Key", "wrong-key")]);
    let (error, _) = refusal(action);
    assert_eq!(error, AppError::Unauthorized("Invalid API key or token".to_string()));
    assert_eq!(error.status_code(), 401);

    let admission = looked_up(&config, &[("X-API-Key", "secret-key")]);
    plan(running(&admission, &mut TerminalSessionTracker::new()));
    // The same key as a token does as well.
    let (_, action) = begin(&config, query(None, None, Some("secret-key")), &[]);
    assert!(matches!(action, AdmissionAction::LookUpStatus));
}

#[test]
fn wrong_token_is_audited_with_its_reason() {
    let mut config = config();
    config.cube_api_key = Some("secret-key".to_string());
    let (_, action) = begin(
        &config,
        query(None, None, Some("wrong-key")),
        &[("x-forwarded-for", "1.2.3.4")],
    );
    let (error, audit) = refusal(action);
    assert!(matches!(error, AppError::Unauthorized(_)));
    assert_eq!(audit, Some(record("auth-failure", None, "1.2.3.4", "credential-invalid")));
}

#[test]
fn refused_handshake_is_never_upgraded() {
    let mut config = config();
    config.cube_api_key = Some("secret-key".to_string());
    let mut tracker = TerminalSessionTracker::new();
    let (mut admission, action) = begin(&config, query(None, None, None), &[]);
    refusal(action);
    assert_eq!(admission.stage(), AdmissionStage::Refused);
    let (error, audit) = refusal(running(&admission, &mut tracker));
    assert_eq!(error, AppError::Unauthorized(NOT_ADMITTED.to_string()));
    assert_eq!(audit, None);
    // An answer that was not asked for clears nothing.
    refusal(admission.callback_answered(CallbackReply::Status(200)));
    assert_eq!(admission.stage(), AdmissionStage::Refused);
    refusal(running(&admission, &mut tracker));
    assert_eq!(tracker.live_sessions(SANDBOX_ID), 0);
}

#[test]
fn callback_decides_before_the_upgrade() {
    let mut config = config();
    config.auth_callback_url = Some("http://auth/auth".to_string());
    let mut tracker = TerminalSessionTracker::new();
    let (mut admission, _) = begin(&config, query(None, None, Some("token")), &[]);
    assert_eq!(admission.stage(), AdmissionStage::AskingCallback);
    refusal(running(&admission, &mut tracker));
    refusal(admission.callback_answered(CallbackReply::Status(401)));
    refusal(admission.callback_answered(CallbackReply::Status(200)));
    assert_eq!(admission.stage(), AdmissionStage::Refused);
    refusal(running(&admission, &mut tracker));

    let (mut admission, _) = begin(&config, query(None, None, Some("token")), &[]);
    admission.callback_answered(CallbackReply::Status(200));
    assert_eq!(admission.stage(), AdmissionStage::Cleared);
    plan(running(&admission, &mut tracker));
}

#[test]
fn empty_auth_settings_mean_open_mode() {
    let mut config = config();
    config.auth_callback_url = Some(String::new());
    config.cube_api_key = Some(String::new());
    looked_up(&config, &[]);
}

#[test]
fn failed_start_closes_without_a_shell() {
    let mut session = Session::new(&config(), SANDBOX_ID.to_string(), None, None, 60);
    let failed = call_result("terminal start", CallReply::Status(403));
    let message = "envd terminal start returned HTTP 403 Forbidden".to_string();
    assert_eq!(failed, Err(AppError::Internal(message.clone())));
    assert_eq!(
        session.step(SessionEvent::StartAnswered(failed)),
        vec![
            SessionAction::Send(ServerMessage::Error { message }),
            SessionAction::CloseSocket,
            SessionAction::Audit(record("close", None, "", "error")),
        ]
    );
    assert_eq!(session.state(), SessionState::Closed { shell: None });
    // Nothing happens any more.
    assert!(session.step(SessionEvent::Idle).is_empty());
    assert!(session.step(SessionEvent::Client(ClientEvent::Gone)).is_empty());
}

#[test]
fn missing_start_event_closes_without_a_shell() {
    let mut session = Session::new(&config(), SANDBOX_ID.to_string(), None, None, 60);
    session.step(SessionEvent::StartAnswered(Ok(())));
    assert_eq!(
        session.step(SessionEvent::ShellReported(wait_for_start(None))),
        vec![
            SessionAction::Send(ServerMessage::Error {
                message: "envd terminal stream ended before start event".to_string(),
            }),
            SessionAction::CloseSocket,
            SessionAction::Audit(record("close", None, "", "error")),
        ]
    );
}

#[test]
fn client_that_vanishes_before_ready_leaves_no_shell() {
    let mut session = Session::new(
        &config(),
        SANDBOX_ID.to_string(),
        None,
        Some("10.0.0.1".to_string()),
        60,
    );
    session.step(SessionEvent::StartAnswered(Ok(())));
    session.step(SessionEvent::ShellReported(Ok(Some(MOCK_PID))));
    assert_eq!(session.step(SessionEvent::Sent(false)), teardown("client-disconnect"));
}

#[test]
fn undeliverable_output_ends_the_session() {
    let mut session = ready_session(&config());
    session.step(SessionEvent::Stream(StreamEvent::Output("eA==".to_string())));
    assert_eq!(session.step(SessionEvent::Sent(false)), teardown("client-disconnect"));
}

#[test]
fn end_of_the_stream_ends_the_session() {
    let end = |event: StreamEvent| ready_session(&config()).step(SessionEvent::Stream(event));
    assert_eq!(
        end(StreamEvent::EndStream(Some("{\"code\":\"x\"}".to_string()))),
        ended_by(
            vec![SessionAction::Send(ServerMessage::Error {
                message: "{\"code\":\"x\"}".to_string(),
            })],
            "envd-exit"
        )
    );
    assert_eq!(end(StreamEvent::EndStream(None)), teardown("envd-exit"));
    assert_eq!(
        end(StreamEvent::Closed),
        ended_by(
            vec![SessionAction::Send(ServerMessage::Exit { code: None })],
            "envd-exit"
        )
    );
    assert_eq!(
        end(StreamEvent::Failed(AppError::Internal("cut".to_string()))),
        ended_by(
            vec![SessionAction::Send(ServerMessage::Error { message: "cut".to_string() })],
            "error"
        )
    );
}

#[test]
fn meaningless_traffic_keeps_the_session() {
    let mut session = ready_session(&config());
    assert!(session.step(message("{\"event\": {\"data\": {\"stdout\": \"eA==\"}}}")).is_empty());
    assert!(session.step(message("no JSON")).is_empty());
    assert_eq!(
        session.step(SessionEvent::Client(ClientEvent::Text(None))),
        vec![SessionAction::ResetIdle]
    );
    assert_eq!(
        session.step(SessionEvent::Client(ClientEvent::Other)),
        vec![SessionAction::ResetIdle]
    );
    assert_eq!(session.state(), SessionState::Open { pid: MOCK_PID });
}

#[test]
fn events_out_of_place_do_nothing() {
    let mut session = Session::new(&config(), SANDBOX_ID.to_string(), None, None, 60);
    assert!(session.step(SessionEvent::Sent(true)).is_empty());
    assert!(session.step(SessionEvent::ShellReported(Ok(Some(1)))).is_empty());
    assert_eq!(session.state(), SessionState::Starting);
    let mut session = ready_session(&config());
    assert!(session.step(SessionEvent::StartAnswered(Ok(()))).is_empty());
    assert!(session.step(SessionEvent::ShellReported(Ok(Some(1)))).is_empty());
    assert_eq!(session.state(), SessionState::Open { pid: MOCK_PID });
}

#[test]
fn every_end_kills_the_shell_once() {
    let ends = [
        SessionEvent::Client(ClientEvent::Gone),
        SessionEvent::Client(ClientEvent::Failed("x".to_string())),
        SessionEvent::Stream(StreamEvent::Exit(None)),
        SessionEvent::Stream(StreamEvent::EndStream(None)),
        SessionEvent::Stream(StreamEvent::Closed),
        SessionEvent::Stream(StreamEvent::Failed(AppError::Internal("x".to_string()))),
        SessionEvent::Sent(false),
        SessionEvent::Idle,
    ];
    for end in ends {
        let mut session = ready_session(&config());
        let mut actions = session.step(end);
        actions.append(&mut session.step(SessionEvent::Idle));
        actions.append(&mut session.step(SessionEvent::Client(ClientEvent::Gone)));
        let kills = actions
            .iter()
            .filter(|a| **a == SessionAction::Call(EnvdCall::Kill { pid: MOCK_PID }))
            .count();
        let closes = actions
            .iter()
            .filter(|a| matches!(a, SessionAction::Audit(r) if r.event == "close"))
            .count();
        assert_eq!((kills, closes), (1, 1));
    }
}
