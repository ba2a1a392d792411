//! Requests to envd and the events it answers with.

use cube_terminal::audit::audit_log;
use cube_terminal::config::ServerConfig;
use cube_terminal::connect::ConnectFrame;
use cube_terminal::envd::{
    call_outcome, call_payload, call_result, data_event, end_error, end_stream_error, envd_host,
    envd_start, envd_unary, envd_url, parse_data_frame, parse_exit_status, start_event,
    start_payload, start_request, start_timeout, terminal_event, unary_request, wait_for_start,
    CallReply, EnvdEvent,
};
use cube_terminal::error::AppError;
use cube_terminal::json::{child, int_at, text_at};
use cube_terminal::messages::{
    clamp_size, handle_client_message, ClientMessage, CloseReason, EnvdCall,
};
use cube_terminal::session::{frame_event, stream_event, StreamEvent};

fn config(proxy: &str) -> ServerConfig {
    ServerConfig {
        auth_callback_url: None,
        cube_api_key: None,
        sandbox_proxy_url: proxy.to_string(),
        sandbox_domain: "cube.app".to_string(),
        terminal_max_sessions_per_sandbox: 8,
        terminal_idle_timeout_secs: 1800,
    }
}

fn json(text: &str) -> serde_json::Value {
    serde_json::from_str(text).expect("JSON")
}

fn pairs(list: &[(&str, &str)]) -> Vec<(String, String)> {
    list.iter().map(|(k, v)| (k.to_string(), v.to_string())).collect()
}

fn internal(text: &str) -> AppError {
    AppError::Internal(text.to_string())
}

#[test]
fn urls_and_hosts() {
    assert_eq!(envd_url(&config("http://p//"), "Start"), "http://p/process.Process/Start");
    assert_eq!(envd_url(&config("http://p"), "Update"), "http://p/process.Process/Update");
    assert_eq!(envd_host("sb-1", "cube.app"), "49983-sb-1.cube.app");
}

#[test]
fn start_asks_for_a_login_shell() {
    assert_eq!(
        start_payload(100, 30),
        json(
            "{\"process\": {\"cmd\": \"/bin/bash\", \"args\": [\"-i\", \"-l\"],
              \"envs\": {\"TERM\": \"xterm-256color\", \"LANG\": \"C.UTF-8\", \"LC_ALL\": \"C.UTF-8\"}},
              \"pty\": {\"size\": {\"rows\": 30, \"cols\": 100}}}"
        )
    );
    let request = envd_start(&config("http://p"), "h", 100, 30);
    assert_eq!(
        request.headers,
        pairs(&[
            ("Host", "h"),
            ("Content-Type", "application/connect+json"),
            ("Connect-Protocol-Version", "1"),
            ("Connect-Content-Encoding", "identity"),
            ("Connect-Timeout-Ms", "86400000"),
            ("Authorization", "Basic cm9vdDo="),
        ])
    );
    let payload: serde_json::Value = serde_json::from_slice(&request.body[5..]).unwrap();
    assert_eq!(payload, start_payload(100, 30));
    assert_eq!(
        start_request(&config("http://p"), "h", b"{}").body,
        vec![0, 0, 0, 0, 2, b'{', b'}']
    );
}

#[test]
fn unary_calls_are_plain_json() {
    let call = EnvdCall::SendInput { pid: -1, data: "a\"b".to_string() };
    assert_eq!(
        call_payload(&call),
        ("SendInput", json("{\"process\": {\"pid\": -1}, \"input\": {\"pty\": \"a\\\"b\"}}"))
    );
    let request = envd_unary(&config("http://p"), "h", &call);
    assert_eq!(
        request.headers,
        pairs(&[
            ("Host", "h"),
            ("Content-Type", "application/json"),
            ("Connect-Protocol-Version", "1"),
            ("Authorization", "Basic cm9vdDo="),
        ])
    );
    assert_eq!(request.body, b"{\"input\":{\"pty\":\"a\\\"b\"},\"process\":{\"pid\":-1}}");
    let bare = unary_request(&config("http://p"), "h", "M", b"x".to_vec());
    assert_eq!((bare.url.as_str(), bare.body.as_slice()), ("http://p/process.Process/M", &b"x"[..]));
}

#[test]
fn call_failures_are_named() {
    assert_eq!(call_result("Update", CallReply::Status(200)), Ok(()));
    assert_eq!(call_result("Update", CallReply::Status(299)), Ok(()));
    assert_eq!(
        call_result("Update", CallReply::Status(404)),
        Err(internal("envd Update returned HTTP 404 Not Found"))
    );
    assert_eq!(
        call_result("Update", CallReply::Status(300)),
        Err(internal("envd Update returned HTTP 300 Multiple Choices"))
    );
    assert_eq!(
        call_result("Update", CallReply::Status(599)),
        Err(internal("envd Update returned HTTP 599 <unknown status code>"))
    );
    assert_eq!(
        call_result("terminal start", CallReply::TimedOut),
        Err(internal("envd terminal start request timed out after 10s"))
    );
    assert_eq!(
        call_result("SendSignal", CallReply::Failed("refused".to_string())),
        Err(internal("envd SendSignal request failed: refused"))
    );
    assert_eq!(
        call_outcome("X", CallReply::Status(500), "500 Oops"),
        Err(internal("envd X returned HTTP 500 Oops"))
    );
}

#[test]
fn data_frames_carry_output_or_exit() {
    let parse = |text: &str| parse_data_frame(text.as_bytes());
    assert_eq!(
        parse("{\"event\": {\"data\": {\"pty\": \"eA==\"}}}"),
        Ok(Some(EnvdEvent::Output("eA==".to_string())))
    );
    // Output wins over an end in the same frame.
    assert_eq!(
        parse("{\"event\": {\"data\": {\"pty\": \"\"}, \"end\": {}}}"),
        Ok(Some(EnvdEvent::Output(String::new())))
    );
    assert_eq!(
        parse("{\"event\": {\"end\": {\"exitCode\": 137}}}"),
        Ok(Some(EnvdEvent::Exit(Some(137))))
    );
    assert_eq!(
        parse("{\"event\": {\"end\": {\"exitCode\": \"1\", \"status\": \"exit status 2\"}}}"),
        Ok(Some(EnvdEvent::Exit(Some(2))))
    );
    assert_eq!(
        parse("{\"event\": {\"end\": {\"exitCode\": 1.5, \"status\": \"killed\"}}}"),
        Ok(Some(EnvdEvent::Exit(None)))
    );
    assert_eq!(parse("{\"event\": {\"end\": null}}"), Ok(Some(EnvdEvent::Exit(None))));
    assert_eq!(parse("{\"event\": {\"data\": {\"stdout\": \"eA==\"}}}"), Ok(None));
    assert_eq!(parse("{\"event\": {\"start\": {\"pid\": 1}}}"), Ok(None));
    assert_eq!(parse("{}"), Ok(None));
    assert_eq!(parse("[1]"), Ok(None));
    assert_eq!(
        parse("{"),
        Err(internal("invalid envd JSON event: EOF while parsing an object at line 1 column 1"))
    );
    assert_eq!(
        data_event(Err("broken".to_string())),
        Err(internal("invalid envd JSON event: broken"))
    );
    assert_eq!(terminal_event(&json("{\"event\": 1}")), None);
}

#[test]
fn exit_status_texts() {
    assert_eq!(parse_exit_status(Some("exit status 0")), Some(0));
    assert_eq!(parse_exit_status(Some("exit status  127 ")), Some(127));
    assert_eq!(parse_exit_status(Some("exit status -1")), Some(-1));
    assert_eq!(parse_exit_status(Some("exit status +3")), Some(3));
    assert_eq!(
        parse_exit_status(Some("exit status 9223372036854775807")),
        Some(i64::MAX)
    );
    assert_eq!(
        parse_exit_status(Some("exit status -9223372036854775808")),
        Some(i64::MIN)
    );
    assert_eq!(parse_exit_status(Some("exit status 9223372036854775808")), None);
    assert_eq!(parse_exit_status(Some("exit status ")), None);
    assert_eq!(parse_exit_status(Some("exit status 1x")), None);
    assert_eq!(parse_exit_status(Some("signal: killed")), None);
    assert_eq!(parse_exit_status(None), None);
}

#[test]
fn end_stream_errors_are_json_text() {
    assert_eq!(
        end_stream_error(b"{\"error\": {\"message\": \"m\", \"code\": \"c\"}}"),
        Some("{\"code\":\"c\",\"message\":\"m\"}".to_string())
    );
    assert_eq!(end_stream_error(b"{\"error\": null}"), Some("null".to_string()));
    assert_eq!(end_stream_error(b"{}"), None);
    assert_eq!(end_stream_error(b"junk"), None);
    assert_eq!(end_error(Ok(json("{\"error\": \"e\"}"))), Some("\"e\"".to_string()));
    assert_eq!(end_error(Err("broken".to_string())), None);
}

#[test]
fn waiting_for_the_start_event() {
    let frame = |flags: u8, text: &str| {
        wait_for_start(Some(ConnectFrame { flags, payload: text.as_bytes().to_vec() }))
    };
    assert_eq!(frame(0, "{\"event\": {\"start\": {\"pid\": 7}}}"), Ok(Some(7)));
    assert_eq!(frame(0, "{\"event\": {\"start\": {\"pid\": \"7\"}}}"), Ok(None));
    assert_eq!(frame(0, "{}"), Ok(None));
    assert_eq!(
        frame(0, ""),
        Err(internal("invalid envd JSON event: EOF while parsing a value at line 1 column 0"))
    );
    assert_eq!(
        frame(2, "{\"error\": {\"code\": \"c\"}}"),
        Err(internal("envd terminal start failed: {\"code\":\"c\"}"))
    );
    assert_eq!(
        frame(2, "{}"),
        Err(internal("envd terminal start failed: envd ended the terminal stream"))
    );
    assert_eq!(
        wait_for_start(None),
        Err(internal("envd terminal stream ended before start event"))
    );
    assert_eq!(
        start_event(false, Err("broken".to_string())),
        Err(internal("invalid envd JSON event: broken"))
    );
    assert_eq!(start_timeout(), internal("timed out waiting for envd start event"));
}

#[test]
fn frames_of_an_open_session() {
    let read = |flags: u8, text: &str| {
        stream_event(Ok(Some(ConnectFrame { flags, payload: text.as_bytes().to_vec() })))
    };
    assert_eq!(
        read(0, "{\"event\": {\"data\": {\"pty\": \"eA==\"}}}"),
        StreamEvent::Output("eA==".to_string())
    );
    assert_eq!(read(0, "{\"event\": {\"end\": {\"exitCode\": 3}}}"), StreamEvent::Exit(Some(3)));
    assert_eq!(read(0, "{}"), StreamEvent::Ignored);
    assert!(matches!(read(0, "x"), StreamEvent::Bad(AppError::Internal(_))));
    assert_eq!(read(2, "{\"error\": 1}"), StreamEvent::EndStream(Some("1".to_string())));
    assert_eq!(read(2, "x"), StreamEvent::EndStream(None));
    assert_eq!(stream_event(Ok(None)), StreamEvent::Closed);
    assert_eq!(stream_event(Err(internal("x"))), StreamEvent::Failed(internal("x")));
    assert_eq!(
        frame_event(false, Err("broken".to_string())),
        StreamEvent::Bad(internal("invalid envd JSON event: broken"))
    );
}

#[test]
fn sizes_are_clamped() {
    assert_eq!(clamp_size(None, 80), 80);
    assert_eq!(clamp_size(Some(0), 80), 1);
    assert_eq!(clamp_size(Some(500), 80), 500);
    assert_eq!(clamp_size(Some(501), 80), 500);
    assert_eq!(clamp_size(Some(u32::MAX), 80), 500);
    assert_eq!(
        handle_client_message(5, ClientMessage::Resize { cols: 0, rows: 9999 }),
        EnvdCall::Update { pid: 5, rows: 500, cols: 1 }
    );
    assert_eq!(
        handle_client_message(5, ClientMessage::Input { data: "eA==".to_string() }),
        EnvdCall::SendInput { pid: 5, data: "eA==".to_string() }
    );
}

#[test]
fn close_reasons_have_names() {
    assert_eq!(CloseReason::ClientDisconnect.as_str(), "client-disconnect");
    assert_eq!(CloseReason::EnvdExit.as_str(), "envd-exit");
    assert_eq!(CloseReason::IdleTimeout.as_str(), "idle-timeout");
    assert_eq!(CloseReason::Error.as_str(), "error");
}

#[test]
fn unknown_fields_of_a_record_are_empty() {
    let record = audit_log("open", "sb", Some(3), None, Some("1.2.3.4"), None);
    assert_eq!(
        (record.event.as_str(), record.sandbox_id.as_str(), record.pid),
        ("open", "sb", Some(3))
    );
    assert_eq!(
        (record.user.as_str(), record.client_ip.as_str(), record.reason.as_str()),
        ("", "1.2.3.4", "")
    );
    let full = audit_log("close", "sb", None, Some("u"), None, Some("error"));
    assert_eq!((full.user.as_str(), full.reason.as_str()), ("u", "error"));
}

#[test]
fn json_members_are_looked_up_by_name() {
    let value = json("{\"a\": {\"b\": \"t\", \"n\": -4, \"big\": 9223372036854775808}}");
    let a = child(Some(&value), "a");
    assert_eq!(text_at(child(a, "b")), Some("t"));
    assert_eq!(int_at(child(a, "n")), Some(-4));
    assert_eq!(int_at(child(a, "big")), None);
    assert_eq!(int_at(child(a, "b")), None);
    assert_eq!(text_at(child(a, "n")), None);
    assert!(child(a, "c").is_none());
    assert!(child(child(a, "b"), "c").is_none());
    assert!(child(None, "a").is_none());
}
