//! The rate-limit bucket of a request.

use axum::body::Body;
use axum::extract::Request;
use cube_terminal::error::AppError;
use cube_terminal::handshake::handshake_credential;
use cube_terminal::headers::HandshakeHeaders;
use cube_terminal::rate_limit::{bucket_key, query_param, quota_verdict, rate_limit_key};

fn request(uri: &str, headers: &[(&str, &str)]) -> Request {
    let mut builder = Request::builder().method("GET").uri(uri);
    for (name, value) in headers {
        builder = builder.header(*name, *value);
    }
    builder.body(Body::empty()).expect("request should build")
}

#[test]
fn key_prefers_subprotocol_token() {
    let req = request(
        "/cubeapi/v1/sandboxes/sb-1/terminal/ws",
        &[
            ("sec-websocket-protocol", "cube-terminal, cube-terminal.tok-1"),
            ("x-api-key", "other-key"),
        ],
    );
    assert_eq!(rate_limit_key(&req), "tok-1");
}

#[test]
fn key_uses_query_token_without_subprotocol() {
    let req = request(
        "/cubeapi/v1/sandboxes/sb-1/terminal/ws?token=tok-2&cols=80",
        &[],
    );
    assert_eq!(rate_limit_key(&req), "tok-2");
}

#[test]
fn empty_subprotocol_token_falls_back_to_query_token() {
    let req = request(
        "/cubeapi/v1/sandboxes/sb-1/terminal/ws?token=tok-3",
        &[("sec-websocket-protocol", "cube-terminal, cube-terminal.")],
    );
    assert_eq!(rate_limit_key(&req), "tok-3");
}

#[test]
fn key_falls_back_to_x_api_key() {
    let req = request("/sandboxes/sb-1", &[("x-api-key", "api-key-1")]);
    assert_eq!(rate_limit_key(&req), "api-key-1");
}

#[test]
fn key_defaults_to_anonymous() {
    let req = request("/sandboxes/sb-1", &[]);
    assert_eq!(rate_limit_key(&req), "anonymous");
}

#[test]
fn query_parameter_is_raw_and_not_empty() {
    assert_eq!(query_param("token=a%20b&token=c", "token"), Some("a%20b"));
    assert_eq!(query_param("token=&x=1&token=c=d", "token"), Some("c=d"));
    assert_eq!(query_param("token&tokens=1", "token"), None);
    assert_eq!(query_param("", "token"), None);
    assert_eq!(query_param("=v", ""), Some("v"));
}

#[test]
fn empty_api_key_is_anonymous() {
    let req = request("/sandboxes/sb-1?cols=3", &[("x-api-key", "")]);
    assert_eq!(rate_limit_key(&req), "anonymous");
}

#[test]
fn bucket_is_the_secret_of_the_credential() {
    let cases: [(&str, &[(&str, &str)]); 4] = [
        ("", &[("sec-websocket-protocol", "cube-terminal, cube-terminal.t")]),
        ("token=q", &[("x-api-key", "k")]),
        ("", &[("x-api-key", "k")]),
        ("token=q", &[("sec-websocket-protocol", "cube-terminal.t"), ("x-api-key", "k")]),
    ];
    for (query, list) in cases {
        let req = request("/", list);
        let headers = HandshakeHeaders::read(req.headers());
        let token = query_param(query, "token").map(|t| t.to_string());
        let credential = handshake_credential(&headers, token).expect("a credential");
        assert_eq!(bucket_key(&headers, query), credential.secret());
    }
}

#[test]
fn exceeded_quota_is_too_many_requests() {
    assert_eq!(quota_verdict(true), Ok(()));
    let error = quota_verdict(false).unwrap_err();
    assert_eq!(
        error,
        AppError::TooManyRequests("Rate limit exceeded. Slow down.".to_string())
    );
    assert_eq!(error.status_code(), 429);
}
