//! What happens to a terminal handshake before the WebSocket upgrade.
//!
//! Origin check, auth, sandbox validation and the per-sandbox session cap all
//! come before the upgrade, so failures get proper HTTP status codes
//! (400/401/403/404/409/429). An [`Admission`] takes these decisions one
//! after the other: each of its methods says what is to be done next, and
//! takes what came of it.

use vstd::prelude::*;

use crate::audit;
use crate::audit::{AuditRecord, AuditView};
use crate::auth;
use crate::auth::{AuthDecision, AuthView, CallbackReply, CallbackReplyView};
use crate::config::{ConfigView, ServerConfig};
use crate::error::{AppError, AppErrorView};
use crate::handshake;
use crate::headers::{HandshakeHeaders, HandshakeView};
use crate::messages;
use crate::outbound::{OutboundRequest, OutboundView};
use crate::sessions;
use crate::sessions::{TerminalSessionGuard, TerminalSessionTracker};
use crate::strings;

verus! {

/// Browser WebSocket message/frame size cap (64 KiB).
pub const MAX_WS_MESSAGE_SIZE: usize = 65536;

/// The answer to a handshake that offers no subprotocol to select.
pub const BASE_SUBPROTOCOL_MISSING: &'static str =
    "offering a cube-terminal.<token> subprotocol requires also offering the base cube-terminal subprotocol";

/// The answer to a handshake that is asked on before it was admitted.
pub const NOT_ADMITTED: &'static str = "terminal handshake has not been admitted";

/// The query of a terminal handshake.
#[derive(Debug, PartialEq, Eq)]
pub struct TerminalQuery {
    /// The PTY width asked for.
    pub cols: Option<u32>,
    /// The PTY height asked for.
    pub rows: Option<u32>,
    /// Auth credential fallback for non-browser clients. Browsers pass the
    /// token via the `cube-terminal.<token>` WebSocket subprotocol instead;
    /// the query param is only used when no token subprotocol was offered.
    pub token: Option<String>,
}

/// What a [`TerminalQuery`] says.
pub ghost struct QueryView {
    pub cols: Option<u32>,
    pub rows: Option<u32>,
    pub token: Option<Seq<char>>,
}

impl View for TerminalQuery {
    type V = QueryView;

    open spec fn view(&self) -> QueryView {
        QueryView { cols: self.cols, rows: self.rows, token: strings::option_text(self.token) }
    }
}

/// The state of a sandbox.
#[derive(Debug, PartialEq, Eq)]
pub enum SandboxStatus {
    /// It runs.
    Running,
    /// It is in another state, of this name.
    Other(String),
}

/// What a [`SandboxStatus`] says.
pub ghost enum StatusView {
    Running,
    Other(Seq<char>),
}

impl View for SandboxStatus {
    type V = StatusView;

    open spec fn view(&self) -> StatusView {
        match self {
            SandboxStatus::Running => StatusView::Running,
            SandboxStatus::Other(name) => StatusView::Other(name@),
        }
    }
}

/// What a look at a sandbox came to.
pub open spec fn status_result(status: Result<SandboxStatus, AppError>) -> Result<
    StatusView,
    AppErrorView,
> {
    match status {
        Ok(s) => Ok(s@),
        Err(e) => Err(e@),
    }
}

/// How far a handshake is.
#[derive(Debug, Clone, Copy, PartialEq, Eq)]
pub enum AdmissionStage {
    /// The auth callback is to decide.
    AskingCallback,
    /// Origin and authentication are in order.
    Cleared,
    /// It is refused.
    Refused,
}

/// A handshake on its way to the upgrade.
pub struct Admission {
    stage: AdmissionStage,
    sandbox_id: String,
    client_ip: Option<String>,
    user: Option<String>,
    cols: u32,
    rows: u32,
    max_sessions: usize,
    idle_timeout_secs: u64,
    offers_base: bool,
    offers_token: bool,
}

/// What an [`Admission`] holds.
pub ghost struct AdmissionView {
    pub stage: AdmissionStage,
    pub sandbox_id: Seq<char>,
    pub client_ip: Option<Seq<char>>,
    pub user: Option<Seq<char>>,
    pub cols: u32,
    pub rows: u32,
    pub max_sessions: usize,
    pub idle_timeout_secs: u64,
    pub offers_base: bool,
    pub offers_token: bool,
}

impl View for Admission {
    type V = AdmissionView;

    closed spec fn view(&self) -> AdmissionView {
        AdmissionView {
            stage: self.stage,
            sandbox_id: self.sandbox_id@,
            client_ip: strings::option_text(self.client_ip),
            user: strings::option_text(self.user),
            cols: self.cols,
            rows: self.rows,
            max_sessions: self.max_sessions,
            idle_timeout_secs: self.idle_timeout_secs,
            offers_base: self.offers_base,
            offers_token: self.offers_token,
        }
    }
}

/// How a session starts behind the upgrade.
#[derive(Debug)]
pub struct UpgradePlan {
    /// The PTY size.
    pub cols: u32,
    pub rows: u32,
    /// How long the session may lie idle, in seconds.
    pub idle_timeout_secs: u64,
    /// The subprotocol that the upgrade response selects.
    pub protocol: Option<&'static str>,
    /// The cap on client messages and frames, in bytes.
    pub max_message_size: usize,
    /// Who opens the session and from where, as far as known.
    pub user: Option<String>,
    pub client_ip: Option<String>,
    /// The session slot, to be given back when the session ends.
    pub slot: TerminalSessionGuard,
}

/// What an [`UpgradePlan`] says.
pub ghost struct PlanView {
    pub cols: u32,
    pub rows: u32,
    pub idle_timeout_secs: u64,
    pub protocol: Option<Seq<char>>,
    pub max_message_size: usize,
    pub user: Option<Seq<char>>,
    pub client_ip: Option<Seq<char>>,
    pub slot: Seq<char>,
}

impl View for UpgradePlan {
    type V = PlanView;

    open spec fn view(&self) -> PlanView {
        PlanView {
            cols: self.cols,
            rows: self.rows,
            idle_timeout_secs: self.idle_timeout_secs,
            protocol: strings::option_str(self.protocol),
            max_message_size: self.max_message_size,
            user: strings::option_text(self.user),
            client_ip: strings::option_text(self.client_ip),
            slot: self.slot@,
        }
    }
}

/// What is to be done next with a handshake.
#[derive(Debug)]
pub enum AdmissionAction {
    /// Send this to the auth callback and go on with
    /// [`Admission::callback_answered`].
    AskCallback(OutboundRequest),
    /// Look the sandbox up and go on with [`Admission::status_known`].
    LookUpStatus,
    /// Answer with the error, and log the record if there is one.
    Reject { error: AppError, audit: Option<AuditRecord> },
    /// Upgrade the connection.
    Upgrade(UpgradePlan),
}

/// What an [`AdmissionAction`] says.
pub ghost enum ActionView {
    AskCallback(OutboundView),
    LookUpStatus,
    Reject { error: AppErrorView, audit: Option<AuditView> },
    Upgrade(PlanView),
}

impl View for AdmissionAction {
    type V = ActionView;

    open spec fn view(&self) -> ActionView {
        match self {
            AdmissionAction::AskCallback(request) => ActionView::AskCallback(request@),
            AdmissionAction::LookUpStatus => ActionView::LookUpStatus,
            AdmissionAction::Reject { error, audit } => ActionView::Reject {
                error: error@,
                audit: match audit {
                    Some(record) => Some(record@),
                    None => None,
                },
            },
            AdmissionAction::Upgrade(plan) => ActionView::Upgrade(plan@),
        }
    }
}

impl ActionView {
    /// How far a handshake is with which this is to be done.
    pub open spec fn stage(self) -> AdmissionStage {
        match self {
            ActionView::AskCallback(_) => AdmissionStage::AskingCallback,
            ActionView::LookUpStatus => AdmissionStage::Cleared,
            ActionView::Reject { .. } => AdmissionStage::Refused,
            ActionView::Upgrade(_) => AdmissionStage::Cleared,
        }
    }
}

/// A handshake as it arrives, at this stage.
pub open spec fn admission_of(
    config: ConfigView,
    sandbox_id: Seq<char>,
    query: QueryView,
    headers: HandshakeView,
    stage: AdmissionStage,
) -> AdmissionView {
    AdmissionView {
        stage,
        sandbox_id,
        client_ip: handshake::client_ip_of(headers),
        user: None,
        cols: messages::clamped(query.cols, messages::DEFAULT_COLS),
        rows: messages::clamped(query.rows, messages::DEFAULT_ROWS),
        max_sessions: config.max_sessions(),
        idle_timeout_secs: config.idle_timeout(),
        offers_base: handshake::offers_base(headers.protocols),
        offers_token: handshake::offers_token(headers.protocols),
    }
}

impl AdmissionView {
    /// The audit record of an event of this handshake.
    pub open spec fn record(self, event: Seq<char>, reason: Option<Seq<char>>) -> AuditView {
        audit::audit_of(event, self.sandbox_id, None, self.user, self.client_ip, reason)
    }

    /// The refusal of a handshake that is not authenticated.
    pub open spec fn unauthenticated(
        self,
        error: AppErrorView,
        reason: Option<Seq<char>>,
    ) -> ActionView {
        ActionView::Reject { error, audit: Some(self.record("auth-failure"@, reason)) }
    }

    /// The answer to a handshake that is asked on at the wrong stage.
    pub open spec fn out_of_place(self) -> ActionView {
        ActionView::Reject { error: AppErrorView::Unauthorized(NOT_ADMITTED@), audit: None }
    }

    /// What is done first with a handshake.
    pub open spec fn first_action(
        self,
        config: ConfigView,
        query: QueryView,
        headers: HandshakeView,
        request_path: Seq<char>,
    ) -> ActionView {
        if !handshake::origin_allowed(headers.origin, headers.host) {
            ActionView::Reject {
                error: AppErrorView::Forbidden("origin host does not match request host"@),
                audit: Some(self.record("auth-failure"@, Some("origin-mismatch"@))),
            }
        } else {
            match auth::authenticate_of(
                config,
                handshake::handshake_credential_of(headers, query.token),
                request_path,
            ) {
                AuthView::Granted => ActionView::LookUpStatus,
                AuthView::Denied { error, reason } => self.unauthenticated(error, Some(reason)),
                AuthView::Ask(request) => ActionView::AskCallback(request),
            }
        }
    }

    /// What is done once the auth callback has answered. An answer that was
    /// not asked for clears nothing.
    pub open spec fn after_callback(self, reply: CallbackReplyView) -> ActionView {
        if !(self.stage is AskingCallback) {
            self.out_of_place()
        } else {
            match auth::callback_error_of(reply) {
                None => ActionView::LookUpStatus,
                Some(error) => self.unauthenticated(error, auth::callback_reason_of(reply)),
            }
        }
    }

    /// The handshake once the auth callback has answered.
    pub open spec fn answered(self, reply: CallbackReplyView) -> AdmissionView {
        if !(self.stage is AskingCallback) {
            self
        } else if auth::callback_error_of(reply) is None {
            AdmissionView { stage: AdmissionStage::Cleared, user: None, ..self }
        } else {
            AdmissionView { stage: AdmissionStage::Refused, ..self }
        }
    }

    /// How the session starts once the handshake is through.
    pub open spec fn plan(self) -> PlanView {
        PlanView {
            cols: self.cols,
            rows: self.rows,
            idle_timeout_secs: self.idle_timeout_secs,
            protocol: if self.offers_base {
                Some(handshake::TERMINAL_SUBPROTOCOL@)
            } else {
                None
            },
            max_message_size: MAX_WS_MESSAGE_SIZE,
            user: self.user,
            client_ip: self.client_ip,
            slot: self.sandbox_id,
        }
    }

    /// What is done once the state of the sandbox is known, and the session
    /// counters then. Only a handshake that was cleared gets any further.
    pub open spec fn after_status(
        self,
        status: Result<StatusView, AppErrorView>,
        counters: Map<Seq<char>, usize>,
    ) -> (ActionView, Map<Seq<char>, usize>) {
        if self.stage is Cleared {
            self.cleared_status(status, counters)
        } else {
            (self.out_of_place(), counters)
        }
    }

    /// What is done with a cleared handshake once the state of the sandbox is
    /// known, and the session counters then.
    pub open spec fn cleared_status(
        self,
        status: Result<StatusView, AppErrorView>,
        counters: Map<Seq<char>, usize>,
    ) -> (ActionView, Map<Seq<char>, usize>) {
        match status {
            Err(error) => (
                ActionView::Reject {
                    error,
                    audit: if error is NotFound {
                        Some(self.record("rejected"@, Some("sandbox-not-found"@)))
                    } else {
                        None
                    },
                },
                counters,
            ),
            Ok(StatusView::Other(name)) => (
                ActionView::Reject {
                    error: AppErrorView::Conflict(
                        "sandbox "@ + self.sandbox_id + " is not running (status: "@ + name + ")"@,
                    ),
                    audit: Some(self.record("rejected"@, Some("sandbox-not-running"@))),
                },
                counters,
            ),
            Ok(StatusView::Running) => {
                let taken = sessions::counters_acquired(
                    counters,
                    self.sandbox_id,
                    self.max_sessions,
                );
                if sessions::live_in(counters, self.sandbox_id) >= self.max_sessions {
                    (
                        ActionView::Reject {
                            error: AppErrorView::TooManyRequests(
                                "sandbox "@ + self.sandbox_id + " already has "@
                                    + strings::decimal_of(self.max_sessions as nat)
                                    + " terminal sessions"@,
                            ),
                            audit: Some(self.record("rejected"@, Some("session-limit"@))),
                        },
                        taken,
                    )
                } else if self.offers_token && !self.offers_base {
                    (
                        ActionView::Reject {
                            error: AppErrorView::BadRequest(
                                BASE_SUBPROTOCOL_MISSING@,
                            ),
                            audit: None,
                        },
                        sessions::counters_released(taken, self.sandbox_id),
                    )
                } else {
                    (ActionView::Upgrade(self.plan()), taken)
                }
            },
        }
    }
}

impl Admission {
    /// The audit record of an event of this handshake.
    fn record(&self, event: &str, reason: Option<&str>) -> (record: AuditRecord)
        ensures
            record@ == self@.record(event@, strings::option_str(reason)),
    {
        audit::audit_log(
            event,
            self.sandbox_id.as_str(),
            None,
            audit::as_text(&self.user),
            audit::as_text(&self.client_ip),
            reason,
        )
    }

    /// Takes in a handshake and says what is to be done first: browsers from
    /// another origin are turned away before any auth work.
    pub fn begin(
        config: &ServerConfig,
        sandbox_id: String,
        query: TerminalQuery,
        headers: &HandshakeHeaders,
        request_path: &str,
    ) -> (begun: (Admission, AdmissionAction))
        ensures
            begun.0@ == admission_of(
                config@,
                sandbox_id@,
                query@,
                headers@,
                begun.1@.stage(),
            ),
            begun.1@ == begun.0@.first_action(config@, query@, headers@, request_path@),
    {
        let mut admission = Admission {
            stage: AdmissionStage::Refused,
            sandbox_id,
            client_ip: handshake::client_ip(headers),
            user: None,
            cols: messages::clamp_size(query.cols, messages::DEFAULT_COLS),
            rows: messages::clamp_size(query.rows, messages::DEFAULT_ROWS),
            max_sessions: config.max_sessions(),
            idle_timeout_secs: config.idle_timeout(),
            offers_base: handshake::offered_base_subprotocol(headers),
            offers_token: handshake::offered_token_subprotocol(headers),
        };
        if !handshake::origin_matches_host(headers) {
            let action = AdmissionAction::Reject {
                error: AppError::Forbidden("origin host does not match request host".to_owned()),
                audit: Some(admission.record("auth-failure", Some("origin-mismatch"))),
            };
            return (admission, action);
        }
        let credential = handshake::handshake_credential(headers, query.token);
        let action = match auth::authenticate(config, credential.as_ref(), request_path) {
            AuthDecision::Granted => {
                admission.stage = AdmissionStage::Cleared;
                AdmissionAction::LookUpStatus
            },
            AuthDecision::Denied { error, reason } => AdmissionAction::Reject {
                error,
                audit: Some(admission.record("auth-failure", Some(reason))),
            },
            AuthDecision::Ask(request) => {
                admission.stage = AdmissionStage::AskingCallback;
                AdmissionAction::AskCallback(request)
            },
        };
        (admission, action)
    }

    /// How far the handshake is.
    pub fn stage(&self) -> (stage: AdmissionStage)
        ensures
            stage == self@.stage,
    {
        self.stage
    }

    /// Takes the answer of the auth callback and says what is to be done
    /// next. An answer that was not asked for changes nothing and is answered
    /// with a refusal.
    pub fn callback_answered(&mut self, reply: CallbackReply) -> (action: AdmissionAction)
        ensures
            action@ == old(self)@.after_callback(reply@),
            final(self)@ == old(self)@.answered(reply@),
    {
        match self.stage {
            AdmissionStage::AskingCallback => {},
            _ => {
                return self.out_of_place();
            },
        }
        let reason = auth::callback_reason(&reply);
        match auth::callback_verdict(reply) {
            Ok(user) => {
                self.user = user;
                self.stage = AdmissionStage::Cleared;
                AdmissionAction::LookUpStatus
            },
            Err(error) => {
                self.stage = AdmissionStage::Refused;
                AdmissionAction::Reject {
                    error,
                    audit: Some(self.record("auth-failure", reason)),
                }
            },
        }
    }

    /// The answer to a handshake that is asked on at the wrong stage.
    fn out_of_place(&self) -> (action: AdmissionAction)
        ensures
            action@ == self@.out_of_place(),
    {
        AdmissionAction::Reject {
            error: AppError::Unauthorized(NOT_ADMITTED.to_owned()),
            audit: None,
        }
    }

    /// Takes the state of the sandbox and says what is to be done: the
    /// upgrade, for which a session slot is taken, or a refusal. A handshake
    /// that was not cleared before is refused whatever the state.
    ///
    /// A client offering the token-bearing `cube-terminal.<token>` subprotocol
    /// must also offer the token-free base protocol: the server may only
    /// select an offered protocol, never selects the token one (so the token
    /// is not echoed), and browsers abort the handshake when nothing they
    /// offered is selected.
    pub fn status_known(
        &self,
        status: Result<SandboxStatus, AppError>,
        tracker: &mut TerminalSessionTracker,
    ) -> (action: AdmissionAction)
        ensures
            (action@, final(tracker).counters()) == self@.after_status(
                status_result(status),
                old(tracker).counters(),
            ),
            action@ is Upgrade ==> self@.stage is Cleared,
    {
        match self.stage {
            AdmissionStage::Cleared => {},
            _ => {
                return self.out_of_place();
            },
        }
        let status = match status {
            Ok(status) => status,
            Err(error) => {
                let audit = match &error {
                    AppError::NotFound(_) => Some(
                        self.record("rejected", Some("sandbox-not-found")),
                    ),
                    _ => None,
                };
                return AdmissionAction::Reject { error, audit };
            },
        };
        if let SandboxStatus::Other(name) = status {
            let mut text = "sandbox ".to_owned();
            text.append(self.sandbox_id.as_str());
            text.append(" is not running (status: ");
            text.append(name.as_str());
            text.append(")");
            return AdmissionAction::Reject {
                error: AppError::Conflict(text),
                audit: Some(self.record("rejected", Some("sandbox-not-running"))),
            };
        }
        let slot = match tracker.acquire(self.sandbox_id.as_str(), self.max_sessions) {
            Some(slot) => slot,
            None => {
                let mut text = "sandbox ".to_owned();
                text.append(self.sandbox_id.as_str());
                text.append(" already has ");
                text.append(strings::decimal(self.max_sessions as u64).as_str());
                text.append(" terminal sessions");
                return AdmissionAction::Reject {
                    error: AppError::TooManyRequests(text),
                    audit: Some(self.record("rejected", Some("session-limit"))),
                };
            },
        };
        if self.offers_token && !self.offers_base {
            tracker.release(slot);
            return AdmissionAction::Reject {
                error: AppError::BadRequest(
                    BASE_SUBPROTOCOL_MISSING.to_owned(),
                ),
                audit: None,
            };
        }
        AdmissionAction::Upgrade(
            UpgradePlan {
                cols: self.cols,
                rows: self.rows,
                idle_timeout_secs: self.idle_timeout_secs,
                protocol: if self.offers_base {
                    Some(handshake::TERMINAL_SUBPROTOCOL)
                } else {
                    None
                },
                max_message_size: MAX_WS_MESSAGE_SIZE,
                user: strings::copy_option(&self.user),
                client_ip: strings::copy_option(&self.client_ip),
                slot,
            },
        )
    }
}

// ── Laws ────────────────────────────────────────────────────────────────

/// All that a handshake meets on its way: its own contents, and what the
/// callback and the sandbox lookup would answer.
pub ghost struct HandshakeCase {
    pub config: ConfigView,
    pub sandbox_id: Seq<char>,
    pub query: QueryView,
    pub headers: HandshakeView,
    pub request_path: Seq<char>,
    pub reply: CallbackReplyView,
    pub status: Result<StatusView, AppErrorView>,
    pub counters: Map<Seq<char>, usize>,
}

impl HandshakeCase {
    /// What is done first with the handshake.
    pub open spec fn first(self) -> ActionView {
        admission_of(
            self.config,
            self.sandbox_id,
            self.query,
            self.headers,
            AdmissionStage::Refused,
        ).first_action(self.config, self.query, self.headers, self.request_path)
    }

    /// The handshake once it has begun.
    pub open spec fn admission(self) -> AdmissionView {
        admission_of(
            self.config,
            self.sandbox_id,
            self.query,
            self.headers,
            self.first().stage(),
        )
    }

    /// The last action of the handshake, and the session counters then.
    pub open spec fn outcome(self) -> (ActionView, Map<Seq<char>, usize>) {
        let admission = self.admission();
        match self.first() {
            ActionView::AskCallback(_) => match admission.after_callback(self.reply) {
                ActionView::LookUpStatus => admission.answered(self.reply).after_status(
                    self.status,
                    self.counters,
                ),
                other => (other, self.counters),
            },
            ActionView::LookUpStatus => admission.after_status(self.status, self.counters),
            other => (other, self.counters),
        }
    }

    /// The credential of the handshake.
    pub open spec fn credential(self) -> Option<handshake::CredentialView> {
        handshake::handshake_credential_of(self.headers, self.query.token)
    }

    /// Whether the origin check lets the handshake pass.
    pub open spec fn same_origin(self) -> bool {
        handshake::origin_allowed(self.headers.origin, self.headers.host)
    }

    /// Whether the handshake is authenticated.
    pub open spec fn authenticated(self) -> bool {
        auth::authenticated(self.config, self.credential(), self.reply)
    }

    /// Whether the sandbox has a session slot left.
    pub open spec fn has_slot(self) -> bool {
        sessions::live_in(self.counters, self.sandbox_id) < self.config.max_sessions()
    }

    /// Whether there is a subprotocol to select, or none is called for.
    pub open spec fn selectable(self) -> bool {
        handshake::offers_token(self.headers.protocols) ==> handshake::offers_base(
            self.headers.protocols,
        )
    }
}

/// A handshake is upgraded exactly when its origin matches, it is
/// authenticated, its sandbox runs and has a slot left, and a token offered
/// as subprotocol comes with the base subprotocol.
pub proof fn law_upgraded_iff_all_checks_pass(case: HandshakeCase)
    ensures
        case.outcome().0 is Upgrade <==> {
            &&& case.same_origin()
            &&& case.authenticated()
            &&& case.status == Ok::<StatusView, AppErrorView>(StatusView::Running)
            &&& case.has_slot()
            &&& case.selectable()
        },
{
    auth::law_granted_iff_authenticated(
        case.config,
        case.credential(),
        case.request_path,
        case.reply,
    );
}

impl AdmissionView {
    /// The handshake after these answers of the auth callback, asked for or
    /// not.
    pub open spec fn after_answers(self, replies: Seq<CallbackReplyView>) -> AdmissionView
        decreases replies.len(),
    {
        if replies.len() == 0 {
            self
        } else {
            self.after_answers(replies.drop_last()).answered(replies.last())
        }
    }
}

/// In whatever order a handshake is asked on, it is upgraded only after the
/// origin check and the authentication: however many answers are handed to it
/// as the auth callback's, the first one alone decides, and only where a
/// callback was to be asked.
pub proof fn law_no_upgrade_without_auth(case: HandshakeCase, replies: Seq<CallbackReplyView>)
    requires
        case.admission().after_answers(replies).after_status(case.status, case.counters).0
            is Upgrade,
    ensures
        case.same_origin(),
        auth::is_set(case.config.auth_callback_url) ==> replies.len() > 0,
        auth::authenticated(case.config, case.credential(), replies[0]),
{
    lemma_first_answer_decides(case.admission(), replies);
    auth::law_granted_iff_authenticated(
        case.config,
        case.credential(),
        case.request_path,
        replies[0],
    );
}

proof fn lemma_first_answer_decides(admission: AdmissionView, replies: Seq<CallbackReplyView>)
    ensures
        replies.len() > 0 ==> admission.after_answers(replies) == admission.answered(replies[0]),
    decreases replies.len(),
{
    if replies.len() > 1 {
        lemma_first_answer_decides(admission, replies.drop_last());
    } else if replies.len() == 1 {
        assert(admission.after_answers(replies.drop_last()) == admission);
    }
}

/// A handshake that was refused stays refused, and takes no slot.
pub proof fn law_refused_stays_refused(
    admission: AdmissionView,
    reply: CallbackReplyView,
    status: Result<StatusView, AppErrorView>,
    counters: Map<Seq<char>, usize>,
)
    requires
        admission.stage is Refused,
    ensures
        admission.answered(reply) == admission,
        admission.after_callback(reply) is Reject,
        admission.after_status(status, counters).0 is Reject,
        admission.after_status(status, counters).1 == counters,
{
}

/// Every handshake ends in an upgrade or in an error answer; which check
/// failed first decides its status: 403 for the origin, 401 for a credential
/// that is missing or refused (500 for a callback that cannot be reached),
/// the lookup's own error, 409 for a sandbox that does not run, 429 beyond
/// the session cap, 400 for a token subprotocol without the base one.
pub proof fn law_refusal_status(case: HandshakeCase)
    requires
        !(case.outcome().0 is Upgrade),
    ensures
        case.outcome().0 matches ActionView::Reject { error, .. } && error.status() == (
        if !case.same_origin() {
            403u16
        } else if !case.authenticated() {
            if auth::is_set(case.config.auth_callback_url) && case.credential() is Some
                && case.reply is Unreachable {
                500u16
            } else {
                401u16
            }
        } else {
            match case.status {
                Err(error) => error.status(),
                Ok(StatusView::Other(_)) => 409u16,
                Ok(StatusView::Running) => if !case.has_slot() {
                    429u16
                } else {
                    400u16
                },
            }
        }),
{
    auth::law_granted_iff_authenticated(
        case.config,
        case.credential(),
        case.request_path,
        case.reply,
    );
}

/// A handshake takes one slot of its sandbox when it is upgraded, none when
/// it is refused, and never one of another sandbox.
pub proof fn law_slot_taken_iff_upgraded(case: HandshakeCase, other: Seq<char>)
    ensures
        sessions::live_in(case.outcome().1, other) == sessions::live_in(case.counters, other) + (
        if case.outcome().0 is Upgrade && other == case.sandbox_id {
            1nat
        } else {
            0nat
        }),
{
}

/// A handshake never lifts a sandbox above the session cap.
pub proof fn law_cap_holds_through_handshakes(case: HandshakeCase, other: Seq<char>)
    requires
        sessions::live_in(case.counters, other) <= case.config.max_sessions(),
    ensures
        sessions::live_in(case.outcome().1, other) <= case.config.max_sessions(),
{
}

/// The upgrade response selects the base subprotocol when it was offered and
/// none otherwise; a token is never echoed.
pub proof fn law_token_is_never_selected(case: HandshakeCase)
    requires
        case.outcome().0 is Upgrade,
    ensures
        case.outcome().0->Upgrade_0.protocol == (if handshake::offers_base(case.headers.protocols) {
            Some(handshake::TERMINAL_SUBPROTOCOL@)
        } else {
            None
        }),
        case.outcome().0->Upgrade_0.protocol matches Some(selected)
            ==> !handshake::TOKEN_SUBPROTOCOL_PREFIX@.is_prefix_of(selected),
{
    reveal_strlit("cube-terminal");
    reveal_strlit("cube-terminal.");
    assert(handshake::TERMINAL_SUBPROTOCOL@.len() < handshake::TOKEN_SUBPROTOCOL_PREFIX@.len());
}

impl HandshakeCase {
    /// The event and the reason that a refused handshake is recorded with;
    /// none where it leaves no record.
    pub open spec fn refusal_record(self) -> Option<(Seq<char>, Option<Seq<char>>)> {
        if !self.same_origin() {
            Some(("auth-failure"@, Some("origin-mismatch"@)))
        } else if !self.authenticated() {
            Some(
                (
                    "auth-failure"@,
                    auth::refusal_reason(self.config, self.credential(), self.reply),
                ),
            )
        } else {
            match self.status {
                Err(error) => if error is NotFound {
                    Some(("rejected"@, Some("sandbox-not-found"@)))
                } else {
                    None
                },
                Ok(StatusView::Other(_)) => Some(("rejected"@, Some("sandbox-not-running"@))),
                Ok(StatusView::Running) => if !self.has_slot() {
                    Some(("rejected"@, Some("session-limit"@)))
                } else {
                    None
                },
            }
        }
    }
}

/// Every refusal for origin, authentication, an unknown or stopped sandbox or
/// the session cap leaves an audit record with the sandbox, the client
/// address and the reason, and nothing of the credential. Only the record of
/// an auth callback that cannot be reached gives no reason.
pub proof fn law_refusals_are_audited(case: HandshakeCase)
    requires
        !(case.outcome().0 is Upgrade),
    ensures
        case.outcome().0 is Reject,
        case.outcome().0->audit == (match case.refusal_record() {
            Some((event, reason)) => Some(
                audit::audit_of(
                    event,
                    case.sandbox_id,
                    None,
                    None,
                    handshake::client_ip_of(case.headers),
                    reason,
                ),
            ),
            None => None,
        }),
        case.outcome().0->audit matches Some(record) ==> (record.reason.len() == 0 <==> {
            &&& case.same_origin()
            &&& auth::is_set(case.config.auth_callback_url)
            &&& case.credential() is Some
            &&& case.reply is Unreachable
        }),
{
    auth::law_granted_iff_authenticated(
        case.config,
        case.credential(),
        case.request_path,
        case.reply,
    );
    auth::law_refusal_reason_is_given(case.config, case.credential(), case.reply);
    reveal_strlit("");
    reveal_strlit("origin-mismatch");
    reveal_strlit("sandbox-not-found");
    reveal_strlit("sandbox-not-running");
    reveal_strlit("session-limit");
}

/// A session behind the upgrade has what the handshake asked for: each side of
/// its PTY as near as the bounds allow, or 80 by 24, the idle timeout and the
/// client of the handshake, and a slot of its sandbox.
pub proof fn law_upgrade_is_what_was_asked_for(case: HandshakeCase)
    requires
        case.outcome().0 is Upgrade,
    ensures
        ({
            let plan = case.outcome().0->Upgrade_0;
            &&& case.query.cols matches Some(cols) ==> messages::is_nearest_size(plan.cols, cols)
            &&& case.query.rows matches Some(rows) ==> messages::is_nearest_size(plan.rows, rows)
            &&& case.query.cols is None ==> plan.cols == 80
            &&& case.query.rows is None ==> plan.rows == 24
            &&& case.config.terminal_idle_timeout_secs > 0 ==> plan.idle_timeout_secs
                == case.config.terminal_idle_timeout_secs
            &&& plan.idle_timeout_secs > 0
            &&& plan.max_message_size == 65536
            &&& plan.user is None
            &&& plan.client_ip == handshake::client_ip_of(case.headers)
            &&& plan.slot == case.sandbox_id
        }),
{
    messages::law_size_is_the_nearest(case.query.cols, 80);
    messages::law_size_is_the_nearest(case.query.rows, 24);
}

/// A refusal says what was wrong, with the sandbox, its state and the cap
/// whole; the error of a failed lookup is passed on as it came.
pub proof fn law_refusal_says_why(case: HandshakeCase)
    requires
        !(case.outcome().0 is Upgrade),
    ensures
        case.outcome().0 is Reject,
        ({
            let error = case.outcome().0->error;
            let id = case.sandbox_id;
            let cap = if case.config.terminal_max_sessions_per_sandbox == 0 {
                1nat
            } else {
                case.config.terminal_max_sessions_per_sandbox as nat
            };
            if !case.same_origin() {
                error == AppErrorView::Forbidden("origin host does not match request host"@)
            } else if !case.authenticated() {
                match auth::authenticate_of(case.config, case.credential(), case.request_path) {
                    AuthView::Denied { error: denied, .. } => error == denied,
                    _ => Some(error) == auth::callback_error_of(case.reply),
                }
            } else {
                match case.status {
                    Err(failed) => error == failed,
                    Ok(StatusView::Other(name)) => error == AppErrorView::Conflict(
                        "sandbox "@ + id + " is not running (status: "@ + name + ")"@,
                    ),
                    Ok(StatusView::Running) => if !case.has_slot() {
                        error == AppErrorView::TooManyRequests(
                            "sandbox "@ + id + " already has "@ + strings::decimal_of(cap)
                                + " terminal sessions"@,
                        )
                    } else {
                        error == AppErrorView::BadRequest(BASE_SUBPROTOCOL_MISSING@)
                    },
                }
            }
        }),
{
    auth::law_granted_iff_authenticated(
        case.config,
        case.credential(),
        case.request_path,
        case.reply,
    );
}

/// A handshake from an allowed origin goes to the auth callback as the
/// authentication says, and to the lookup of its sandbox where that lets it
/// pass.
pub proof fn law_handshake_goes_on(case: HandshakeCase)
    requires
        case.same_origin(),
    ensures
        match auth::authenticate_of(case.config, case.credential(), case.request_path) {
            AuthView::Ask(request) => case.first() == ActionView::AskCallback(request)
                && case.admission().stage is AskingCallback,
            AuthView::Granted => case.first() is LookUpStatus && case.admission().stage is Cleared,
            AuthView::Denied { .. } => case.first() is Reject && case.admission().stage is Refused,
        },
{
}

/// Which refusals are recorded, and how: a foreign origin and a failed
/// authentication as `auth-failure`, a sandbox that is unknown, stopped or
/// full as `rejected`, each with its own reason; others leave no record.
pub proof fn law_recorded_refusals(case: HandshakeCase)
    ensures
        ({
            let passed = case.same_origin() && case.authenticated();
            let record = case.refusal_record();
            let runs = case.status == Ok::<StatusView, AppErrorView>(StatusView::Running);
            &&& !case.same_origin() ==> record == Some(
                ("auth-failure"@, Some("origin-mismatch"@)),
            )
            &&& case.same_origin() && !case.authenticated() ==> record == Some(
                (
                    "auth-failure"@,
                    auth::refusal_reason(case.config, case.credential(), case.reply),
                ),
            )
            &&& passed && (case.status matches Err(AppErrorView::NotFound(_))) ==> record == Some(
                ("rejected"@, Some("sandbox-not-found"@)),
            )
            &&& passed && (case.status matches Ok(StatusView::Other(_))) ==> record == Some(
                ("rejected"@, Some("sandbox-not-running"@)),
            )
            &&& passed && runs && sessions::live_in(case.counters, case.sandbox_id)
                >= case.config.max_sessions() ==> record == Some(
                ("rejected"@, Some("session-limit"@)),
            )
            &&& passed && case.status is Err && !(case.status matches Err(
                AppErrorView::NotFound(_),
            )) ==> record is None
            &&& passed && runs && sessions::live_in(case.counters, case.sandbox_id)
                < case.config.max_sessions() ==> record is None
        }),
{
}

/// An answer of the callback that was asked for decides: a 200 clears the
/// handshake for the lookup of its sandbox, any other refuses it with the
/// error and the reason of that answer.
pub proof fn law_callback_moves_the_handshake(admission: AdmissionView, reply: CallbackReplyView)
    requires
        admission.stage is AskingCallback,
    ensures
        reply == CallbackReplyView::Status(200) ==> admission.after_callback(reply) is LookUpStatus
            && admission.answered(reply).stage is Cleared,
        reply != CallbackReplyView::Status(200) ==> {
            &&& admission.answered(reply).stage is Refused
            &&& admission.after_callback(reply) == (ActionView::Reject {
                error: auth::callback_error_of(reply)->0,
                audit: Some(
                    audit::audit_of(
                        "auth-failure"@,
                        admission.sandbox_id,
                        None,
                        admission.user,
                        admission.client_ip,
                        auth::callback_reason_of(reply),
                    ),
                ),
            })
        },
        admission.answered(reply).sandbox_id == admission.sandbox_id,
        admission.answered(reply).client_ip == admission.client_ip,
        admission.answered(reply).cols == admission.cols,
        admission.answered(reply).rows == admission.rows,
{
}

/// What a handshake brings and what is to be done with it says exactly what it
/// holds.
pub proof fn law_handshake_says_what_it_holds(
    query: TerminalQuery,
    name: String,
    failed: AppError,
    request: OutboundRequest,
    record: AuditRecord,
    plan: UpgradePlan,
)
    ensures
        query@.cols == query.cols,
        query@.rows == query.rows,
        query.token matches Some(token) ==> query@.token == Some(token@),
        query.token is None ==> query@.token is None,
        SandboxStatus::Running@ is Running,
        SandboxStatus::Other(name)@ == StatusView::Other(name@),
        status_result(Ok(SandboxStatus::Running)) == Ok::<StatusView, AppErrorView>(
            StatusView::Running,
        ),
        status_result(Ok(SandboxStatus::Other(name))) == Ok::<StatusView, AppErrorView>(
            StatusView::Other(name@),
        ),
        status_result(Err(failed)) == Err::<StatusView, AppErrorView>(failed@),
        AdmissionAction::AskCallback(request)@ == ActionView::AskCallback(request@),
        AdmissionAction::LookUpStatus@ is LookUpStatus,
        (AdmissionAction::Reject { error: failed, audit: Some(record) })@ == (ActionView::Reject {
            error: failed@,
            audit: Some(record@),
        }),
        (AdmissionAction::Reject { error: failed, audit: None })@ == (ActionView::Reject {
            error: failed@,
            audit: None,
        }),
        AdmissionAction::Upgrade(plan)@ == ActionView::Upgrade(plan@),
        plan@.cols == plan.cols,
        plan@.rows == plan.rows,
        plan@.idle_timeout_secs == plan.idle_timeout_secs,
        plan@.max_message_size == plan.max_message_size,
        plan.protocol matches Some(protocol) ==> plan@.protocol == Some(protocol@),
        plan.protocol is None ==> plan@.protocol is None,
        plan.user matches Some(user) ==> plan@.user == Some(user@),
        plan.user is None ==> plan@.user is None,
        plan.client_ip matches Some(ip) ==> plan@.client_ip == Some(ip@),
        plan.client_ip is None ==> plan@.client_ip is None,
        plan@.slot == plan.slot@,
{
}

} // verus!
