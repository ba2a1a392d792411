//! Authentication of a terminal handshake.

use vstd::prelude::*;

use crate::config::{ConfigView, ServerConfig};
use crate::error::{AppError, AppErrorView};
use crate::handshake;
use crate::handshake::{CredentialView, TerminalCredential};
use crate::outbound;
use crate::outbound::{OutboundRequest, OutboundView};
use crate::strings;

verus! {

/// The answer to a handshake without the credential that it needs.
pub const MISSING_CREDENTIAL: &'static str =
    "Missing authentication token (cube-terminal subprotocol, token query parameter, or X-API-Key header)";

/// Why an authentication was refused, as the audit log names it: the
/// handshake carries no credential.
pub const CREDENTIAL_MISSING: &'static str = "credential-missing";

/// The credential is not the shared key.
pub const CREDENTIAL_INVALID: &'static str = "credential-invalid";

/// The auth callback rejects the credential.
pub const CALLBACK_REJECTED: &'static str = "callback-rejected";

/// What is to be done about a handshake.
#[derive(Debug, PartialEq, Eq)]
pub enum AuthDecision {
    /// It may go on.
    Granted,
    /// It is refused with the error, and recorded with the reason.
    Denied { error: AppError, reason: &'static str },
    /// The auth callback decides; this is what it is sent.
    Ask(OutboundRequest),
}

/// What an [`AuthDecision`] says.
pub ghost enum AuthView {
    Granted,
    Denied { error: AppErrorView, reason: Seq<char> },
    Ask(OutboundView),
}

impl View for AuthDecision {
    type V = AuthView;

    open spec fn view(&self) -> AuthView {
        match self {
            AuthDecision::Granted => AuthView::Granted,
            AuthDecision::Denied { error, reason } => AuthView::Denied {
                error: error@,
                reason: reason@,
            },
            AuthDecision::Ask(request) => AuthView::Ask(request@),
        }
    }
}

/// The header that carries a credential on to the auth callback: the one that
/// it came on.
pub open spec fn credential_header(credential: CredentialView) -> (Seq<char>, Seq<char>) {
    match credential {
        CredentialView::Bearer(token) => ("Authorization"@, "Bearer "@ + token),
        CredentialView::ApiKey(key) => ("X-API-Key"@, key),
    }
}

/// What the auth callback is sent.
pub open spec fn callback_request_of(
    url: Seq<char>,
    credential: CredentialView,
    request_path: Seq<char>,
) -> OutboundView {
    OutboundView {
        url,
        headers: seq![
            ("X-Request-Path"@, request_path),
            ("X-Request-Method"@, "GET"@),
            credential_header(credential),
        ],
        body: seq![],
    }
}

/// Whether a setting is there and not empty.
pub open spec fn is_set(setting: Option<Seq<char>>) -> bool {
    setting is Some && setting->0.len() > 0
}

/// What is to be done about a handshake: the auth callback decides where one
/// is configured, else the shared key where one is configured, else it may
/// go on.
pub open spec fn authenticate_of(
    config: ConfigView,
    credential: Option<CredentialView>,
    request_path: Seq<char>,
) -> AuthView {
    if !is_set(config.auth_callback_url) && !is_set(config.cube_api_key) {
        AuthView::Granted
    } else {
        match credential {
            None => AuthView::Denied {
                error: AppErrorView::Unauthorized(MISSING_CREDENTIAL@),
                reason: CREDENTIAL_MISSING@,
            },
            Some(c) => if is_set(config.auth_callback_url) {
                AuthView::Ask(callback_request_of(config.auth_callback_url->0, c, request_path))
            } else if c.secret() == config.cube_api_key->0 {
                AuthView::Granted
            } else {
                AuthView::Denied {
                    error: AppErrorView::Unauthorized("Invalid API key or token"@),
                    reason: CREDENTIAL_INVALID@,
                }
            },
        }
    }
}

/// The value of a setting that is there and not empty.
fn setting(value: &Option<String>) -> (set: Option<&str>)
    ensures
        match set {
            Some(text) => is_set(strings::option_text(*value)) && strings::option_text(*value)
                == Some(text@),
            None => !is_set(strings::option_text(*value)),
        },
{
    match value {
        Some(text) => if text.as_str().is_empty() {
            None
        } else {
            Some(text.as_str())
        },
        None => None,
    }
}

/// What the auth callback is sent.
fn callback_request(
    url: &str,
    credential: &TerminalCredential,
    request_path: &str,
) -> (request: OutboundRequest)
    ensures
        request@ == callback_request_of(url@, credential@, request_path@),
{
    let mut headers: Vec<(String, String)> = Vec::new();
    assert(outbound::header_views(headers@) =~= seq![]);
    outbound::push_header(&mut headers, "X-Request-Path", request_path);
    outbound::push_header(&mut headers, "X-Request-Method", "GET");
    match credential {
        TerminalCredential::Bearer(token) => {
            let mut value = "Bearer ".to_owned();
            value.append(token.as_str());
            outbound::push_header(&mut headers, "Authorization", value.as_str());
        },
        TerminalCredential::ApiKey(key) => {
            outbound::push_header(&mut headers, "X-API-Key", key.as_str());
        },
    }
    assert(outbound::header_views(headers@) =~= seq![
        ("X-Request-Path"@, request_path@),
        ("X-Request-Method"@, "GET"@),
        credential_header(credential@),
    ]);
    let body: Vec<u8> = Vec::new();
    assert(body@ =~= seq![]);
    OutboundRequest { url: url.to_owned(), headers, body }
}

/// The refusal of a handshake without the credential that it needs.
fn missing_credential() -> (decision: AuthDecision)
    ensures
        decision@ == (AuthView::Denied {
            error: AppErrorView::Unauthorized(MISSING_CREDENTIAL@),
            reason: CREDENTIAL_MISSING@,
        }),
{
    AuthDecision::Denied {
        error: AppError::Unauthorized(MISSING_CREDENTIAL.to_owned()),
        reason: CREDENTIAL_MISSING,
    }
}

/// Validate the handshake credential against whichever auth backend is
/// configured: auth callback first (forwarding the credential on the same
/// header the client used), then the simple API key, then open mode.
pub fn authenticate(
    config: &ServerConfig,
    credential: Option<&TerminalCredential>,
    request_path: &str,
) -> (decision: AuthDecision)
    ensures
        decision@ == authenticate_of(
            config@,
            match credential {
                Some(c) => Some(c@),
                None => None,
            },
            request_path@,
        ),
{
    if let Some(callback_url) = setting(&config.auth_callback_url) {
        return match credential {
            Some(c) => AuthDecision::Ask(callback_request(callback_url, c, request_path)),
            None => missing_credential(),
        };
    }
    if let Some(expected_key) = setting(&config.cube_api_key) {
        return match credential {
            Some(c) => if strings::same_text(c.secret(), expected_key) {
                AuthDecision::Granted
            } else {
                AuthDecision::Denied {
                    error: AppError::Unauthorized("Invalid API key or token".to_owned()),
                    reason: CREDENTIAL_INVALID,
                }
            },
            None => missing_credential(),
        };
    }
    AuthDecision::Granted
}

/// What the auth callback answered.
#[derive(Debug, PartialEq, Eq)]
pub enum CallbackReply {
    /// Nothing, for this reason.
    Unreachable(String),
    /// A response with this HTTP status.
    Status(u16),
}

/// What a [`CallbackReply`] says.
pub ghost enum CallbackReplyView {
    Unreachable(Seq<char>),
    Status(u16),
}

impl View for CallbackReply {
    type V = CallbackReplyView;

    open spec fn view(&self) -> CallbackReplyView {
        match self {
            CallbackReply::Unreachable(text) => CallbackReplyView::Unreachable(text@),
            CallbackReply::Status(code) => CallbackReplyView::Status(*code),
        }
    }
}

/// Why the answer of the auth callback refuses a handshake; none where it
/// lets it go on.
pub open spec fn callback_error_of(reply: CallbackReplyView) -> Option<AppErrorView> {
    match reply {
        CallbackReplyView::Unreachable(text) => Some(
            AppErrorView::Internal("Auth callback unreachable: "@ + text),
        ),
        CallbackReplyView::Status(code) => if code == 200 {
            None
        } else {
            Some(AppErrorView::Unauthorized("Authentication rejected by callback"@))
        },
    }
}

/// The reason that a refusal by this answer of the auth callback is recorded
/// with; none where the callback gave no answer, which says nothing of the
/// credential.
pub open spec fn callback_reason_of(reply: CallbackReplyView) -> Option<Seq<char>> {
    match reply {
        CallbackReplyView::Unreachable(_) => None,
        CallbackReplyView::Status(_) => Some(CALLBACK_REJECTED@),
    }
}

/// The reason that a refusal by this answer of the auth callback is recorded
/// with.
pub fn callback_reason(reply: &CallbackReply) -> (reason: Option<&'static str>)
    ensures
        strings::option_str(reason) == callback_reason_of(reply@),
{
    match reply {
        CallbackReply::Unreachable(_) => None,
        CallbackReply::Status(_) => Some(CALLBACK_REJECTED),
    }
}

/// Decide on a handshake from the answer of the auth callback. The callback
/// only answers allow/deny; the caller's identity is not known then.
pub fn callback_verdict(reply: CallbackReply) -> (verdict: Result<Option<String>, AppError>)
    ensures
        match verdict {
            Ok(user) => user is None && callback_error_of(reply@) is None,
            Err(error) => callback_error_of(reply@) == Some(error@),
        },
{
    match reply {
        CallbackReply::Unreachable(reason) => {
            let mut text = "Auth callback unreachable: ".to_owned();
            text.append(reason.as_str());
            Err(AppError::Internal(text))
        },
        CallbackReply::Status(code) => if code == 200 {
            Ok(None)
        } else {
            Err(AppError::Unauthorized("Authentication rejected by callback".to_owned()))
        },
    }
}

// ── Laws ────────────────────────────────────────────────────────────────

/// Whether a handshake is authenticated, `reply` being what the auth callback
/// answers when it is asked.
pub open spec fn authenticated(
    config: ConfigView,
    credential: Option<CredentialView>,
    reply: CallbackReplyView,
) -> bool {
    if is_set(config.auth_callback_url) {
        credential is Some && reply == CallbackReplyView::Status(200)
    } else if is_set(config.cube_api_key) {
        credential is Some && credential->0.secret() == config.cube_api_key->0
    } else {
        true
    }
}

/// Why a handshake that is not authenticated is refused, as the audit log
/// names it.
pub open spec fn refusal_reason(
    config: ConfigView,
    credential: Option<CredentialView>,
    reply: CallbackReplyView,
) -> Option<Seq<char>> {
    if credential is None {
        Some(CREDENTIAL_MISSING@)
    } else if is_set(config.auth_callback_url) {
        callback_reason_of(reply)
    } else {
        Some(CREDENTIAL_INVALID@)
    }
}

/// A refused credential, or the lack of one, is recorded with a reason; only a
/// callback that cannot be reached leaves none.
pub proof fn law_refusal_reason_is_given(
    config: ConfigView,
    credential: Option<CredentialView>,
    reply: CallbackReplyView,
)
    ensures
        refusal_reason(config, credential, reply) matches Some(reason) ==> reason.len() > 0,
        refusal_reason(config, credential, reply) is None <==> {
            &&& is_set(config.auth_callback_url)
            &&& credential is Some
            &&& reply is Unreachable
        },
{
    reveal_strlit("credential-missing");
    reveal_strlit("credential-invalid");
    reveal_strlit("callback-rejected");
}

/// A handshake goes on exactly when it is authenticated: by the callback's
/// 200, else by the shared key on either transport, else always.
pub proof fn law_granted_iff_authenticated(
    config: ConfigView,
    credential: Option<CredentialView>,
    request_path: Seq<char>,
    reply: CallbackReplyView,
)
    ensures
        authenticated(config, credential, reply) <==> match authenticate_of(
            config,
            credential,
            request_path,
        ) {
            AuthView::Granted => true,
            AuthView::Denied { .. } => false,
            AuthView::Ask(_) => callback_error_of(reply) is None,
        },
{
}

/// A token beats an API key: with a token that is not blank, the callback is
/// sent the token as a Bearer and never the API key.
pub proof fn law_bearer_is_what_the_callback_sees(
    config: ConfigView,
    headers: crate::headers::HandshakeView,
    query_token: Option<Seq<char>>,
    request_path: Seq<char>,
)
    requires
        is_set(config.auth_callback_url),
        handshake::non_blank(handshake::handshake_token_of(headers, query_token)) is Some,
    ensures
        authenticate_of(
            config,
            handshake::handshake_credential_of(headers, query_token),
            request_path,
        ) == AuthView::Ask(
            OutboundView {
                url: config.auth_callback_url->0,
                headers: seq![
                    ("X-Request-Path"@, request_path),
                    ("X-Request-Method"@, "GET"@),
                    (
                        "Authorization"@,
                        "Bearer "@ + handshake::non_blank(
                            handshake::handshake_token_of(headers, query_token),
                        )->0,
                    ),
                ],
                body: seq![],
            },
        ),
{
}

/// The auth callback is sent the credential whole, on the header that it came
/// on, with the path of the request; where a callback is configured it is
/// always the one to decide.
pub proof fn law_callback_is_asked(
    config: ConfigView,
    url: Seq<char>,
    secret: Seq<char>,
    path: Seq<char>,
)
    requires
        config.auth_callback_url == Some(url),
        url.len() > 0,
    ensures
        authenticate_of(config, Some(CredentialView::Bearer(secret)), path) == AuthView::Ask(
            OutboundView {
                url,
                headers: seq![
                    ("X-Request-Path"@, path),
                    ("X-Request-Method"@, "GET"@),
                    ("Authorization"@, "Bearer "@ + secret),
                ],
                body: seq![],
            },
        ),
        authenticate_of(config, Some(CredentialView::ApiKey(secret)), path) == AuthView::Ask(
            OutboundView {
                url,
                headers: seq![
                    ("X-Request-Path"@, path),
                    ("X-Request-Method"@, "GET"@),
                    ("X-API-Key"@, secret),
                ],
                body: seq![],
            },
        ),
        authenticate_of(config, None, path) == (AuthView::Denied {
            error: AppErrorView::Unauthorized(MISSING_CREDENTIAL@),
            reason: "credential-missing"@,
        }),
{
}

/// Without a callback, exactly the shared key lets a handshake pass, on either
/// transport.
pub proof fn law_shared_key_decides(
    config: ConfigView,
    key: Seq<char>,
    secret: Seq<char>,
    path: Seq<char>,
)
    requires
        config.auth_callback_url matches Some(url) ==> url.len() == 0,
        config.cube_api_key == Some(key),
        key.len() > 0,
    ensures
        authenticate_of(config, Some(CredentialView::Bearer(secret)), path) is Granted <==> secret
            == key,
        authenticate_of(config, Some(CredentialView::ApiKey(secret)), path) is Granted <==> secret
            == key,
        secret != key ==> authenticate_of(config, Some(CredentialView::Bearer(secret)), path) == (
        AuthView::Denied {
            error: AppErrorView::Unauthorized("Invalid API key or token"@),
            reason: "credential-invalid"@,
        }),
        secret != key ==> authenticate_of(config, Some(CredentialView::ApiKey(secret)), path) == (
        AuthView::Denied {
            error: AppErrorView::Unauthorized("Invalid API key or token"@),
            reason: "credential-invalid"@,
        }),
        authenticate_of(config, None, path) == (AuthView::Denied {
            error: AppErrorView::Unauthorized(MISSING_CREDENTIAL@),
            reason: "credential-missing"@,
        }),
{
}

/// With neither a callback nor a key, every handshake passes.
pub proof fn law_open_mode(config: ConfigView, credential: Option<CredentialView>, path: Seq<char>)
    requires
        config.auth_callback_url matches Some(url) ==> url.len() == 0,
        config.cube_api_key matches Some(key) ==> key.len() == 0,
    ensures
        authenticate_of(config, credential, path) is Granted,
{
}

/// Of all answers of the callback only a 200 lets a handshake pass; the error
/// for a callback that cannot be reached says why, whole.
pub proof fn law_callback_answer_decides(code: u16, text: Seq<char>)
    ensures
        callback_error_of(CallbackReplyView::Status(code)) is None <==> code == 200,
        code != 200 ==> callback_error_of(CallbackReplyView::Status(code)) == Some(
            AppErrorView::Unauthorized("Authentication rejected by callback"@),
        ),
        callback_error_of(CallbackReplyView::Unreachable(text)) == Some(
            AppErrorView::Internal("Auth callback unreachable: "@ + text),
        ),
{
}

/// A handshake is authenticated where a callback is configured by its 200 to a
/// credential, else where a key is configured by that key, else always.
pub proof fn law_authenticated(
    config: ConfigView,
    credential: Option<CredentialView>,
    reply: CallbackReplyView,
)
    ensures
        ({
            let asked = config.auth_callback_url is Some && config.auth_callback_url->0.len() > 0;
            let keyed = config.cube_api_key is Some && config.cube_api_key->0.len() > 0;
            let by_key = credential == Some(CredentialView::Bearer(config.cube_api_key->0))
                || credential == Some(CredentialView::ApiKey(config.cube_api_key->0));
            authenticated(config, credential, reply) <==> if asked {
                credential is Some && reply == CallbackReplyView::Status(200)
            } else {
                keyed ==> by_key
            }
        }),
{
}

/// The reasons of refused authentications, as the audit log names them.
pub proof fn law_refusal_reasons(
    config: ConfigView,
    credential: CredentialView,
    reply: CallbackReplyView,
)
    ensures
        ({
            let asked = config.auth_callback_url is Some && config.auth_callback_url->0.len() > 0;
            let reason = refusal_reason(config, Some(credential), reply);
            &&& refusal_reason(config, None, reply) == Some("credential-missing"@)
            &&& !asked ==> reason == Some("credential-invalid"@)
            &&& asked && reply is Status ==> reason == Some("callback-rejected"@)
            &&& asked && reply is Unreachable ==> reason is None
        }),
{
}

/// Decisions and answers say exactly what they hold.
pub proof fn law_decisions_say_what_they_hold(
    error: AppError,
    reason: &'static str,
    request: OutboundRequest,
    text: String,
    code: u16,
)
    ensures
        AuthDecision::Granted@ is Granted,
        (AuthDecision::Denied { error, reason })@ == (AuthView::Denied {
            error: error@,
            reason: reason@,
        }),
        AuthDecision::Ask(request)@ == AuthView::Ask(request@),
        CallbackReply::Unreachable(text)@ == CallbackReplyView::Unreachable(text@),
        CallbackReply::Status(code)@ == CallbackReplyView::Status(code),
{
}

} // verus!
