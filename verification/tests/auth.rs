//! Authentication of a handshake.

use cube_terminal::auth::{
    authenticate, callback_reason, callback_verdict, AuthDecision, CallbackReply,
    MISSING_CREDENTIAL,
};
use cube_terminal::config::ServerConfig;
use cube_terminal::error::AppError;
use cube_terminal::handshake::TerminalCredential;

fn config(callback: Option<&str>, key: Option<&str>) -> ServerConfig {
    ServerConfig {
        auth_callback_url: callback.map(|c| c.to_string()),
        cube_api_key: key.map(|k| k.to_string()),
        sandbox_proxy_url: String::new(),
        sandbox_domain: String::new(),
        terminal_max_sessions_per_sandbox: 8,
        terminal_idle_timeout_secs: 1800,
    }
}

#[test]
fn callback_comes_before_the_shared_key() {
    let credential = TerminalCredential::ApiKey("secret-key".to_string());
    let both = config(Some("http://auth"), Some("secret-key"));
    match authenticate(&both, Some(&credential), "/p") {
        AuthDecision::Ask(request) => {
            assert_eq!(request.url, "http://auth");
            assert_eq!(
                request.headers,
                vec![
                    ("X-Request-Path".to_string(), "/p".to_string()),
                    ("X-Request-Method".to_string(), "GET".to_string()),
                    ("X-API-Key".to_string(), "secret-key".to_string()),
                ]
            );
        }
        other => panic!("expected the callback, got {:?}", other),
    }
}

#[test]
fn missing_credential_is_unauthorized_where_one_is_needed() {
    let denied = AuthDecision::Denied {
        error: AppError::Unauthorized(MISSING_CREDENTIAL.to_string()),
        reason: "credential-missing",
    };
    assert_eq!(authenticate(&config(Some("http://auth"), None), None, "/"), denied);
    assert_eq!(authenticate(&config(None, Some("k")), None, "/"), denied);
    assert_eq!(authenticate(&config(None, None), None, "/"), AuthDecision::Granted);
    assert_eq!(
        MISSING_CREDENTIAL,
        "Missing authentication token (cube-terminal subprotocol, token query parameter, or X-API-Key header)"
    );
}

#[test]
fn wrong_key_is_unauthorized() {
    let credential = TerminalCredential::Bearer("wrong-key".to_string());
    assert_eq!(
        authenticate(&config(None, Some("secret-key")), Some(&credential), "/"),
        AuthDecision::Denied {
            error: AppError::Unauthorized("Invalid API key or token".to_string()),
            reason: "credential-invalid",
        }
    );
}

#[test]
fn callback_refusals_have_reasons() {
    assert_eq!(callback_reason(&CallbackReply::Status(403)), Some("callback-rejected"));
    assert_eq!(callback_reason(&CallbackReply::Unreachable("refused".to_string())), None);
}

#[test]
fn callback_identity_is_not_known() {
    assert_eq!(callback_verdict(CallbackReply::Status(200)), Ok(None));
    assert_eq!(
        callback_verdict(CallbackReply::Status(204)),
        Err(AppError::Unauthorized("Authentication rejected by callback".to_string()))
    );
}

#[test]
fn every_error_has_its_status() {
    let text = || "why".to_string();
    let statuses = [
        (AppError::BadRequest(text()), 400),
        (AppError::Unauthorized(text()), 401),
        (AppError::Forbidden(text()), 403),
        (AppError::NotFound(text()), 404),
        (AppError::Conflict(text()), 409),
        (AppError::TooManyRequests(text()), 429),
        (AppError::Internal(text()), 500),
    ];
    for (error, status) in statuses {
        assert_eq!(error.status_code(), status);
        assert_eq!(error.message(), "why");
    }
}
