//! A terminal session behind the WebSocket upgrade.
//!
//! A [`Session`] bridges a browser WebSocket and the PTY of a shell that envd
//! runs. It takes what happens, one event at a time, and says what is to be
//! done about it.

use vstd::prelude::*;

use crate::audit;
use crate::audit::{AuditRecord, AuditView};
use crate::config::{ConfigView, ServerConfig};
use crate::connect::{ConnectFrame, FrameView};
use crate::envd;
use crate::envd::{EnvdEvent, EnvdEventView};
use crate::error::{AppError, AppErrorView};
use crate::json;
use crate::json::JsonTree;
use crate::messages;
use crate::messages::{
    ClientMessage, ClientMessageView, CloseReason, EnvdCall, EnvdCallView, ServerMessage,
    ServerMessageView,
};
use crate::strings;

verus! {

/// Deadline for every client-bound send, in seconds: a client that stops
/// reading must not pin the writer.
pub const WS_SEND_TIMEOUT_SECS: u64 = 10;

// ── Events ──────────────────────────────────────────────────────────────

/// What the envd stream brings to an open session.
#[derive(Debug, PartialEq, Eq)]
pub enum StreamEvent {
    /// Base64-encoded bytes read from the PTY.
    Output(String),
    /// The shell is gone, with this code where it is known.
    Exit(Option<i64>),
    /// A frame without a meaning for the terminal.
    Ignored,
    /// A frame that cannot be read.
    Bad(AppError),
    /// The last frame of the stream, with the error that it carries.
    EndStream(Option<String>),
    /// The stream is over without a last frame.
    Closed,
    /// The stream cannot be read on.
    Failed(AppError),
}

/// What a [`StreamEvent`] says.
pub ghost enum StreamEventView {
    Output(Seq<char>),
    Exit(Option<i64>),
    Ignored,
    Bad(AppErrorView),
    EndStream(Option<Seq<char>>),
    Closed,
    Failed(AppErrorView),
}

impl View for StreamEvent {
    type V = StreamEventView;

    open spec fn view(&self) -> StreamEventView {
        match self {
            StreamEvent::Output(data) => StreamEventView::Output(data@),
            StreamEvent::Exit(code) => StreamEventView::Exit(*code),
            StreamEvent::Ignored => StreamEventView::Ignored,
            StreamEvent::Bad(error) => StreamEventView::Bad(error@),
            StreamEvent::EndStream(detail) => StreamEventView::EndStream(
                strings::option_text(*detail),
            ),
            StreamEvent::Closed => StreamEventView::Closed,
            StreamEvent::Failed(error) => StreamEventView::Failed(error@),
        }
    }
}

/// What the client brings to an open session.
#[derive(Debug, PartialEq, Eq)]
pub enum ClientEvent {
    /// A text message; none where it is no message of the protocol.
    Text(Option<ClientMessage>),
    /// A binary, ping or pong message.
    Other,
    /// The client went away (close frame or dropped connection).
    Gone,
    /// The client cannot be read on, for this reason.
    Failed(String),
}

/// What a [`ClientEvent`] says.
pub ghost enum ClientEventView {
    Text(Option<ClientMessageView>),
    Other,
    Gone,
    Failed(Seq<char>),
}

impl View for ClientEvent {
    type V = ClientEventView;

    open spec fn view(&self) -> ClientEventView {
        match self {
            ClientEvent::Text(Some(message)) => ClientEventView::Text(Some(message@)),
            ClientEvent::Text(None) => ClientEventView::Text(None),
            ClientEvent::Other => ClientEventView::Other,
            ClientEvent::Gone => ClientEventView::Gone,
            ClientEvent::Failed(reason) => ClientEventView::Failed(reason@),
        }
    }
}

/// What happens to a session.
#[derive(Debug, PartialEq, Eq)]
pub enum SessionEvent {
    /// envd answered the Start request.
    StartAnswered(Result<(), AppError>),
    /// The stream brought the pid of the shell, or nothing yet, or the reason
    /// why there will be none.
    ShellReported(Result<Option<i64>, AppError>),
    /// Whether a checked message went out to the client.
    Sent(bool),
    /// The envd stream brought something.
    Stream(StreamEvent),
    /// The client brought something.
    Client(ClientEvent),
    /// The idle timer went off.
    Idle,
}

/// What a [`SessionEvent`] says.
pub ghost enum SessionEventView {
    StartAnswered(Result<(), AppErrorView>),
    ShellReported(Result<Option<i64>, AppErrorView>),
    Sent(bool),
    Stream(StreamEventView),
    Client(ClientEventView),
    Idle,
}

impl View for SessionEvent {
    type V = SessionEventView;

    open spec fn view(&self) -> SessionEventView {
        match self {
            SessionEvent::StartAnswered(Ok(_)) => SessionEventView::StartAnswered(Ok(())),
            SessionEvent::StartAnswered(Err(error)) => SessionEventView::StartAnswered(
                Err(error@),
            ),
            SessionEvent::ShellReported(start) => SessionEventView::ShellReported(
                envd::start_result(*start),
            ),
            SessionEvent::Sent(sent) => SessionEventView::Sent(*sent),
            SessionEvent::Stream(event) => SessionEventView::Stream(event@),
            SessionEvent::Client(event) => SessionEventView::Client(event@),
            SessionEvent::Idle => SessionEventView::Idle,
        }
    }
}

/// What a frame with this document means to an open session.
pub open spec fn frame_event_of(
    end_stream: bool,
    document: Result<JsonTree, Seq<char>>,
) -> StreamEventView {
    if end_stream {
        StreamEventView::EndStream(envd::end_error_of(document))
    } else {
        match envd::data_event_of(document) {
            Ok(Some(EnvdEventView::Output(data))) => StreamEventView::Output(data),
            Ok(Some(EnvdEventView::Exit(code))) => StreamEventView::Exit(code),
            Ok(None) => StreamEventView::Ignored,
            Err(error) => StreamEventView::Bad(error),
        }
    }
}

/// What reading the next frame means to an open session.
pub open spec fn stream_event_of(read: Result<Option<FrameView>, AppErrorView>) -> StreamEventView {
    match read {
        Ok(Some(frame)) => frame_event_of(
            frame.is_end_stream(),
            json::json_document(frame.payload),
        ),
        Ok(None) => StreamEventView::Closed,
        Err(error) => StreamEventView::Failed(error),
    }
}

/// What an attempt at the next frame holds.
pub open spec fn read_result(read: Result<Option<ConnectFrame>, AppError>) -> Result<
    Option<FrameView>,
    AppErrorView,
> {
    match read {
        Ok(frame) => Ok(envd::frame_option(frame)),
        Err(error) => Err(error@),
    }
}

/// What a frame that parsed to `parsed` means to an open session.
pub fn frame_event(end_stream: bool, parsed: Result<serde_json::Value, String>) -> (event:
    StreamEvent)
    ensures
        event@ == frame_event_of(end_stream, envd::parsed_result(parsed)),
{
    if end_stream {
        return StreamEvent::EndStream(envd::end_error(parsed));
    }
    match envd::data_event(parsed) {
        Ok(Some(EnvdEvent::Output(data))) => StreamEvent::Output(data),
        Ok(Some(EnvdEvent::Exit(code))) => StreamEvent::Exit(code),
        Ok(None) => StreamEvent::Ignored,
        Err(error) => StreamEvent::Bad(error),
    }
}

/// What reading the next frame means to an open session.
pub fn stream_event(read: Result<Option<ConnectFrame>, AppError>) -> (event: StreamEvent)
    ensures
        event@ == stream_event_of(read_result(read)),
{
    match read {
        Ok(Some(frame)) => frame_event(
            frame.is_end_stream(),
            json::parse_json(frame.payload.as_slice()),
        ),
        Ok(None) => StreamEvent::Closed,
        Err(error) => StreamEvent::Failed(error),
    }
}

// ── Actions ─────────────────────────────────────────────────────────────

/// What is to be done for a session.
#[derive(Debug, PartialEq, Eq)]
pub enum SessionAction {
    /// Send this to the client; a failure changes nothing.
    Send(ServerMessage),
    /// Send this to the client and report with [`SessionEvent::Sent`].
    SendChecked(ServerMessage),
    /// Let the idle timer start anew.
    ResetIdle,
    /// Make this envd call; a failure changes nothing.
    Call(EnvdCall),
    /// Drop the envd stream.
    DropStream,
    /// Send a close frame to the client; a failure changes nothing.
    SendClose,
    /// Close the connection to the client.
    CloseSocket,
    /// Write this to the audit log.
    Audit(AuditRecord),
}

/// What a [`SessionAction`] says.
pub ghost enum SessionActionView {
    Send(ServerMessageView),
    SendChecked(ServerMessageView),
    ResetIdle,
    Call(EnvdCallView),
    DropStream,
    SendClose,
    CloseSocket,
    Audit(AuditView),
}

impl View for SessionAction {
    type V = SessionActionView;

    open spec fn view(&self) -> SessionActionView {
        match self {
            SessionAction::Send(message) => SessionActionView::Send(message@),
            SessionAction::SendChecked(message) => SessionActionView::SendChecked(message@),
            SessionAction::ResetIdle => SessionActionView::ResetIdle,
            SessionAction::Call(call) => SessionActionView::Call(call@),
            SessionAction::DropStream => SessionActionView::DropStream,
            SessionAction::SendClose => SessionActionView::SendClose,
            SessionAction::CloseSocket => SessionActionView::CloseSocket,
            SessionAction::Audit(record) => SessionActionView::Audit(record@),
        }
    }
}

/// What a list of actions says.
pub open spec fn action_views(actions: Seq<SessionAction>) -> Seq<SessionActionView> {
    actions.map_values(|action: SessionAction| action@)
}

/// Adds an action at the end.
fn push_action(actions: &mut Vec<SessionAction>, action: SessionAction)
    ensures
        action_views(final(actions)@) == action_views(old(actions)@).push(action@),
{
    actions.push(action);
    assert(action_views(actions@) =~= action_views(old(actions)@).push(action@));
}

// ── The session ─────────────────────────────────────────────────────────

/// How far a session is.
#[derive(Debug, Clone, Copy, PartialEq, Eq)]
pub enum SessionState {
    /// The Start request is under way.
    Starting,
    /// The stream is there, the pid of the shell is not.
    AwaitingPid,
    /// The client is being told of the shell.
    SendingReady { pid: i64 },
    /// Client and shell are connected.
    Open { pid: i64 },
    /// It is over; the shell is the one that it had.
    Closed { shell: Option<i64> },
}

impl SessionState {
    /// The shell of the session, once it is known.
    pub open spec fn shell(self) -> Option<i64> {
        match self {
            SessionState::Starting => None,
            SessionState::AwaitingPid => None,
            SessionState::SendingReady { pid } => Some(pid),
            SessionState::Open { pid } => Some(pid),
            SessionState::Closed { shell } => shell,
        }
    }
}

/// A terminal session.
pub struct Session {
    sandbox_id: String,
    host: String,
    user: Option<String>,
    client_ip: Option<String>,
    idle_timeout_secs: u64,
    state: SessionState,
}

/// What a [`Session`] holds.
pub ghost struct SessionView {
    pub sandbox_id: Seq<char>,
    pub host: Seq<char>,
    pub user: Option<Seq<char>>,
    pub client_ip: Option<Seq<char>>,
    pub idle_timeout_secs: u64,
    pub state: SessionState,
}

impl View for Session {
    type V = SessionView;

    closed spec fn view(&self) -> SessionView {
        SessionView {
            sandbox_id: self.sandbox_id@,
            host: self.host@,
            user: strings::option_text(self.user),
            client_ip: strings::option_text(self.client_ip),
            idle_timeout_secs: self.idle_timeout_secs,
            state: self.state,
        }
    }
}

impl SessionView {
    /// The session in another state.
    pub open spec fn in_state(self, state: SessionState) -> SessionView {
        SessionView { state, ..self }
    }

    /// The audit record of an event of this session.
    pub open spec fn record(
        self,
        event: Seq<char>,
        pid: Option<i64>,
        reason: Option<Seq<char>>,
    ) -> AuditView {
        audit::audit_of(event, self.sandbox_id, pid, self.user, self.client_ip, reason)
    }

    /// What ends a session that never had a shell.
    pub open spec fn failure(self, error: AppErrorView) -> Seq<SessionActionView> {
        seq![
            SessionActionView::Send(ServerMessageView::Error { message: error.text() }),
            SessionActionView::CloseSocket,
            SessionActionView::Audit(
                self.record("close"@, None, Some(CloseReason::Error.name())),
            ),
        ]
    }

    /// What ends a session that has a shell: the shell is killed, the
    /// connection closed and the end recorded.
    pub open spec fn teardown(self, pid: i64, reason: CloseReason) -> Seq<SessionActionView> {
        seq![
            SessionActionView::DropStream,
            SessionActionView::Call(EnvdCallView::Kill { pid }),
            SessionActionView::SendClose,
            SessionActionView::CloseSocket,
            SessionActionView::Audit(self.record("close"@, Some(pid), Some(reason.name()))),
        ]
    }

    /// The message for a session that lay idle too long.
    pub open spec fn idle_message(self) -> Seq<char> {
        "terminal session timed out after "@ + strings::decimal_of(self.idle_timeout_secs as nat)
            + "s of inactivity"@
    }

    /// What an open session does about an event of the stream, and why it
    /// ends, if it does.
    pub open spec fn on_stream(self, event: StreamEventView) -> (
        Seq<SessionActionView>,
        Option<CloseReason>,
    ) {
        match event {
            StreamEventView::Output(data) => (
                seq![
                    SessionActionView::ResetIdle,
                    SessionActionView::SendChecked(ServerMessageView::Output { data }),
                ],
                None,
            ),
            StreamEventView::Exit(code) => (
                seq![SessionActionView::Send(ServerMessageView::Exit { code })],
                Some(CloseReason::EnvdExit),
            ),
            StreamEventView::Ignored => (seq![], None),
            StreamEventView::Bad(_) => (seq![], None),
            StreamEventView::EndStream(Some(message)) => (
                seq![SessionActionView::Send(ServerMessageView::Error { message })],
                Some(CloseReason::EnvdExit),
            ),
            StreamEventView::EndStream(None) => (seq![], Some(CloseReason::EnvdExit)),
            StreamEventView::Closed => (
                seq![SessionActionView::Send(ServerMessageView::Exit { code: None })],
                Some(CloseReason::EnvdExit),
            ),
            StreamEventView::Failed(error) => (
                seq![SessionActionView::Send(ServerMessageView::Error { message: error.text() })],
                Some(CloseReason::Error),
            ),
        }
    }

    /// What an open session does about an event of the client, and why it
    /// ends, if it does.
    pub open spec fn on_client(self, pid: i64, event: ClientEventView) -> (
        Seq<SessionActionView>,
        Option<CloseReason>,
    ) {
        match event {
            ClientEventView::Text(Some(message)) => (
                seq![
                    SessionActionView::ResetIdle,
                    SessionActionView::Call(messages::client_call_of(pid, message)),
                ],
                None,
            ),
            ClientEventView::Text(None) => (seq![SessionActionView::ResetIdle], None),
            ClientEventView::Other => (seq![SessionActionView::ResetIdle], None),
            ClientEventView::Gone => (seq![], Some(CloseReason::ClientDisconnect)),
            ClientEventView::Failed(reason) => (
                seq![
                    SessionActionView::Send(
                        ServerMessageView::Error { message: "connection error: "@ + reason },
                    ),
                ],
                Some(CloseReason::ClientDisconnect),
            ),
        }
    }

    /// What an open session does about an event, and why it ends, if it
    /// does.
    pub open spec fn on_open(self, pid: i64, event: SessionEventView) -> (
        Seq<SessionActionView>,
        Option<CloseReason>,
    ) {
        match event {
            SessionEventView::Stream(event) => self.on_stream(event),
            SessionEventView::Client(event) => self.on_client(pid, event),
            SessionEventView::Sent(false) => (seq![], Some(CloseReason::ClientDisconnect)),
            SessionEventView::Idle => (
                seq![
                    SessionActionView::Send(
                        ServerMessageView::Error { message: self.idle_message() },
                    ),
                    SessionActionView::Audit(self.record("timeout"@, Some(pid), None)),
                ],
                Some(CloseReason::IdleTimeout),
            ),
            _ => (seq![], None),
        }
    }

    /// What an event does to a session: how the session stands then, and
    /// what is to be done. An event that does not fit the state of the
    /// session does nothing.
    pub open spec fn step(self, event: SessionEventView) -> (SessionView, Seq<SessionActionView>) {
        match (self.state, event) {
            (SessionState::Starting, SessionEventView::StartAnswered(Ok(_))) => (
                self.in_state(SessionState::AwaitingPid),
                seq![],
            ),
            (SessionState::Starting, SessionEventView::StartAnswered(Err(error))) => (
                self.in_state(SessionState::Closed { shell: None }),
                self.failure(error),
            ),
            (SessionState::AwaitingPid, SessionEventView::ShellReported(Ok(Some(pid)))) => (
                self.in_state(SessionState::SendingReady { pid }),
                seq![SessionActionView::SendChecked(ServerMessageView::Ready { pid })],
            ),
            (SessionState::AwaitingPid, SessionEventView::ShellReported(Err(error))) => (
                self.in_state(SessionState::Closed { shell: None }),
                self.failure(error),
            ),
            (SessionState::SendingReady { pid }, SessionEventView::Sent(true)) => (
                self.in_state(SessionState::Open { pid }),
                seq![
                    SessionActionView::Audit(self.record("open"@, Some(pid), None)),
                    SessionActionView::ResetIdle,
                ],
            ),
            (SessionState::SendingReady { pid }, SessionEventView::Sent(false)) => (
                self.in_state(SessionState::Closed { shell: Some(pid) }),
                self.teardown(pid, CloseReason::ClientDisconnect),
            ),
            (SessionState::Open { pid }, _) => {
                let (actions, ended) = self.on_open(pid, event);
                match ended {
                    Some(reason) => (
                        self.in_state(SessionState::Closed { shell: Some(pid) }),
                        actions + self.teardown(pid, reason),
                    ),
                    None => (self, actions),
                }
            },
            _ => (self, seq![]),
        }
    }
}

/// A session at its start.
pub open spec fn session_of(
    config: ConfigView,
    sandbox_id: Seq<char>,
    user: Option<Seq<char>>,
    client_ip: Option<Seq<char>>,
    idle_timeout_secs: u64,
) -> SessionView {
    SessionView {
        sandbox_id,
        host: envd::envd_host_of(sandbox_id, config.sandbox_domain),
        user,
        client_ip,
        idle_timeout_secs,
        state: SessionState::Starting,
    }
}

impl Session {
    /// A session at its start: the Start request is to be sent to
    /// [`Session::host`].
    pub fn new(
        config: &ServerConfig,
        sandbox_id: String,
        user: Option<String>,
        client_ip: Option<String>,
        idle_timeout_secs: u64,
    ) -> (session: Session)
        ensures
            session@ == session_of(
                config@,
                sandbox_id@,
                strings::option_text(user),
                strings::option_text(client_ip),
                idle_timeout_secs,
            ),
    {
        let host = envd::envd_host(sandbox_id.as_str(), config.sandbox_domain.as_str());
        Session {
            sandbox_id,
            host,
            user,
            client_ip,
            idle_timeout_secs,
            state: SessionState::Starting,
        }
    }

    /// The host of the sandbox's envd.
    pub fn host(&self) -> (host: &str)
        ensures
            host@ == self@.host,
    {
        self.host.as_str()
    }

    /// How far the session is.
    pub fn state(&self) -> (state: SessionState)
        ensures
            state == self@.state,
    {
        self.state
    }

    /// The audit record of an event of this session.
    fn record(&self, event: &str, pid: Option<i64>, reason: Option<&str>) -> (action: SessionAction)
        ensures
            action@ == SessionActionView::Audit(
                self@.record(event@, pid, strings::option_str(reason)),
            ),
    {
        SessionAction::Audit(
            audit::audit_log(
                event,
                self.sandbox_id.as_str(),
                pid,
                audit::as_text(&self.user),
                audit::as_text(&self.client_ip),
                reason,
            ),
        )
    }

    /// Ends a session that never had a shell.
    fn fail(&mut self, error: &AppError, actions: &mut Vec<SessionAction>)
        ensures
            final(self)@ == old(self)@.in_state(SessionState::Closed { shell: None }),
            action_views(final(actions)@) == action_views(old(actions)@) + old(self)@.failure(
                error@,
            ),
    {
        let message = error.message().to_owned();
        push_action(actions, SessionAction::Send(ServerMessage::Error { message }));
        push_action(actions, SessionAction::CloseSocket);
        push_action(actions, self.record("close", None, Some(CloseReason::Error.as_str())));
        assert(action_views(actions@) =~= action_views(old(actions)@) + old(self)@.failure(
            error@,
        ));
        self.state = SessionState::Closed { shell: None };
    }

    /// Shared session teardown: SIGKILL of the shell, close handshake, and
    /// the audit close record. Runs on every exit path after the shell has
    /// started so the sandbox never keeps an orphaned shell.
    fn teardown_session(&mut self, pid: i64, reason: CloseReason, actions: &mut Vec<SessionAction>)
        ensures
            final(self)@ == old(self)@.in_state(SessionState::Closed { shell: Some(pid) }),
            action_views(final(actions)@) == action_views(old(actions)@) + old(self)@.teardown(
                pid,
                reason,
            ),
    {
        push_action(actions, SessionAction::DropStream);
        push_action(actions, SessionAction::Call(EnvdCall::Kill { pid }));
        push_action(actions, SessionAction::SendClose);
        push_action(actions, SessionAction::CloseSocket);
        push_action(actions, self.record("close", Some(pid), Some(reason.as_str())));
        assert(action_views(actions@) =~= action_views(old(actions)@) + old(self)@.teardown(
            pid,
            reason,
        ));
        self.state = SessionState::Closed { shell: Some(pid) };
    }

    /// What an open session does about an event of the stream.
    fn on_stream(&self, event: StreamEvent, actions: &mut Vec<SessionAction>) -> (ended: Option<
        CloseReason,
    >)
        requires
            action_views(old(actions)@) == Seq::<SessionActionView>::empty(),
        ensures
            (action_views(final(actions)@), ended) == self@.on_stream(event@),
    {
        match event {
            StreamEvent::Output(data) => {
                push_action(actions, SessionAction::ResetIdle);
                push_action(actions, SessionAction::SendChecked(ServerMessage::Output { data }));
                None
            },
            StreamEvent::Exit(code) => {
                push_action(actions, SessionAction::Send(ServerMessage::Exit { code }));
                Some(CloseReason::EnvdExit)
            },
            StreamEvent::Ignored => None,
            StreamEvent::Bad(_) => None,
            StreamEvent::EndStream(detail) => {
                if let Some(message) = detail {
                    push_action(actions, SessionAction::Send(ServerMessage::Error { message }));
                }
                Some(CloseReason::EnvdExit)
            },
            StreamEvent::Closed => {
                push_action(actions, SessionAction::Send(ServerMessage::Exit { code: None }));
                Some(CloseReason::EnvdExit)
            },
            StreamEvent::Failed(error) => {
                let message = error.message().to_owned();
                push_action(actions, SessionAction::Send(ServerMessage::Error { message }));
                Some(CloseReason::Error)
            },
        }
    }

    /// What an open session does about an event of the client.
    fn on_client(&self, pid: i64, event: ClientEvent, actions: &mut Vec<SessionAction>) -> (ended:
        Option<CloseReason>)
        requires
            action_views(old(actions)@) == Seq::<SessionActionView>::empty(),
        ensures
            (action_views(final(actions)@), ended) == self@.on_client(pid, event@),
    {
        match event {
            ClientEvent::Text(Some(message)) => {
                push_action(actions, SessionAction::ResetIdle);
                push_action(
                    actions,
                    SessionAction::Call(messages::handle_client_message(pid, message)),
                );
                None
            },
            ClientEvent::Text(None) => {
                push_action(actions, SessionAction::ResetIdle);
                None
            },
            // Binary / ping / pong frames carry no terminal meaning, but
            // still count as client liveness.
            ClientEvent::Other => {
                push_action(actions, SessionAction::ResetIdle);
                None
            },
            ClientEvent::Gone => Some(CloseReason::ClientDisconnect),
            ClientEvent::Failed(reason) => {
                let mut message = "connection error: ".to_owned();
                message.append(reason.as_str());
                push_action(actions, SessionAction::Send(ServerMessage::Error { message }));
                Some(CloseReason::ClientDisconnect)
            },
        }
    }

    /// What an open session does about an event, and why it ends, if it
    /// does. The idle timer only reaps truly dormant sessions: any client
    /// message or shell output resets it.
    fn pump(
        &self,
        pid: i64,
        event: SessionEvent,
        actions: &mut Vec<SessionAction>,
    ) -> (ended: Option<CloseReason>)
        requires
            action_views(old(actions)@) == Seq::<SessionActionView>::empty(),
        ensures
            (action_views(final(actions)@), ended) == self@.on_open(pid, event@),
    {
        match event {
            SessionEvent::Stream(event) => self.on_stream(event, actions),
            SessionEvent::Client(event) => self.on_client(pid, event, actions),
            SessionEvent::Sent(false) => Some(CloseReason::ClientDisconnect),
            SessionEvent::Idle => {
                let mut message = "terminal session timed out after ".to_owned();
                message.append(strings::decimal(self.idle_timeout_secs).as_str());
                message.append("s of inactivity");
                push_action(actions, SessionAction::Send(ServerMessage::Error { message }));
                push_action(actions, self.record("timeout", Some(pid), None));
                Some(CloseReason::IdleTimeout)
            },
            _ => None,
        }
    }

    /// Takes an event and says what is to be done, in this order.
    pub fn step(&mut self, event: SessionEvent) -> (actions: Vec<SessionAction>)
        ensures
            (final(self)@, action_views(actions@)) == old(self)@.step(event@),
    {
        let mut actions: Vec<SessionAction> = Vec::new();
        assert(action_views(actions@) =~= seq![]);
        match self.state {
            SessionState::Starting => match event {
                SessionEvent::StartAnswered(Ok(_)) => {
                    self.state = SessionState::AwaitingPid;
                },
                SessionEvent::StartAnswered(Err(error)) => {
                    self.fail(&error, &mut actions);
                },
                _ => {},
            },
            SessionState::AwaitingPid => match event {
                SessionEvent::ShellReported(Ok(Some(pid))) => {
                    push_action(
                        &mut actions,
                        SessionAction::SendChecked(ServerMessage::Ready { pid }),
                    );
                    self.state = SessionState::SendingReady { pid };
                },
                SessionEvent::ShellReported(Err(error)) => {
                    self.fail(&error, &mut actions);
                },
                _ => {},
            },
            SessionState::SendingReady { pid } => match event {
                SessionEvent::Sent(true) => {
                    push_action(&mut actions, self.record("open", Some(pid), None));
                    push_action(&mut actions, SessionAction::ResetIdle);
                    self.state = SessionState::Open { pid };
                },
                // The client vanished between the upgrade and the Ready
                // frame: the same teardown as on any other exit path.
                SessionEvent::Sent(false) => {
                    self.teardown_session(pid, CloseReason::ClientDisconnect, &mut actions);
                },
                _ => {},
            },
            SessionState::Open { pid } => {
                if let Some(reason) = self.pump(pid, event, &mut actions) {
                    self.teardown_session(pid, reason, &mut actions);
                }
            },
            SessionState::Closed { .. } => {},
        }
        actions
    }
}

// ── Laws ────────────────────────────────────────────────────────────────

/// What `pick` finds in the items of `items`, in order.
pub open spec fn picked<A, T>(items: Seq<A>, pick: spec_fn(A) -> Option<T>) -> Seq<T>
    decreases items.len(),
{
    if items.len() == 0 {
        seq![]
    } else {
        match pick(items.last()) {
            Some(found) => picked(items.drop_last(), pick).push(found),
            None => picked(items.drop_last(), pick),
        }
    }
}

/// What is found, as a sequence.
spec fn found<T>(item: Option<T>) -> Seq<T> {
    match item {
        Some(value) => seq![value],
        None => seq![],
    }
}

proof fn lemma_picked_short<A, T>(items: Seq<A>, pick: spec_fn(A) -> Option<T>)
    ensures
        items.len() == 0 ==> picked(items, pick) == Seq::<T>::empty(),
        items.len() == 1 ==> picked(items, pick) == found(pick(items[0])),
        items.len() == 2 ==> picked(items, pick) == found(pick(items[0])) + found(pick(items[1])),
        items.len() == 3 ==> picked(items, pick) == found(pick(items[0])) + found(pick(items[1]))
            + found(pick(items[2])),
        items.len() == 4 ==> picked(items, pick) == found(pick(items[0])) + found(pick(items[1]))
            + found(pick(items[2])) + found(pick(items[3])),
        items.len() == 5 ==> picked(items, pick) == found(pick(items[0])) + found(pick(items[1]))
            + found(pick(items[2])) + found(pick(items[3])) + found(pick(items[4])),
    decreases items.len(),
{
    if 0 < items.len() <= 5 {
        lemma_picked_short(items.drop_last(), pick);
        assert(picked(items, pick) =~= picked(items.drop_last(), pick) + found(pick(items.last())));
        if items.len() == 1 {
            assert(picked(items, pick) =~= found(pick(items[0])));
        }
    }
}

proof fn lemma_picked_add<A, T>(first: Seq<A>, second: Seq<A>, pick: spec_fn(A) -> Option<T>)
    ensures
        picked(first + second, pick) == picked(first, pick) + picked(second, pick),
    decreases second.len(),
{
    if second.len() == 0 {
        assert(first + second =~= first);
        assert(picked(first, pick) + picked(second, pick) =~= picked(first, pick));
    } else {
        lemma_picked_add(first, second.drop_last(), pick);
        assert((first + second).drop_last() =~= first + second.drop_last());
        assert(picked(first + second, pick) =~= picked(first, pick) + picked(second, pick));
    }
}

/// The shell that an action kills.
pub open spec fn kill_of() -> spec_fn(SessionActionView) -> Option<i64> {
    |action: SessionActionView|
        match action {
            SessionActionView::Call(EnvdCallView::Kill { pid }) => Some(pid),
            _ => None,
        }
}

/// The shells that `actions` kill, in order.
pub open spec fn kills(actions: Seq<SessionActionView>) -> Seq<i64> {
    picked(actions, kill_of())
}

/// The audit record that an action writes.
pub open spec fn record_of() -> spec_fn(SessionActionView) -> Option<AuditView> {
    |action: SessionActionView|
        match action {
            SessionActionView::Audit(record) => Some(record),
            _ => None,
        }
}

/// The audit log that `actions` write.
pub open spec fn audited(actions: Seq<SessionActionView>) -> Seq<AuditView> {
    picked(actions, record_of())
}

/// The PTY output that an action sends to the client.
pub open spec fn output_of() -> spec_fn(SessionActionView) -> Option<Seq<char>> {
    |action: SessionActionView|
        match action {
            SessionActionView::SendChecked(ServerMessageView::Output { data }) => Some(data),
            _ => None,
        }
}

/// The PTY output that `actions` send to the client, in order.
pub open spec fn outputs(actions: Seq<SessionActionView>) -> Seq<Seq<char>> {
    picked(actions, output_of())
}

/// The envd call that an action makes.
pub open spec fn call_of() -> spec_fn(SessionActionView) -> Option<EnvdCallView> {
    |action: SessionActionView|
        match action {
            SessionActionView::Call(call) => Some(call),
            _ => None,
        }
}

/// The envd calls that `actions` make, in order.
pub open spec fn calls(actions: Seq<SessionActionView>) -> Seq<EnvdCallView> {
    picked(actions, call_of())
}

/// The PTY output that `events` bring, in order.
pub open spec fn outputs_read(events: Seq<SessionEventView>) -> Seq<Seq<char>> {
    picked(
        events,
        |event: SessionEventView|
            match event {
                SessionEventView::Stream(StreamEventView::Output(data)) => Some(data),
                _ => None,
            },
    )
}

/// The envd calls that the client messages among `events` ask for, in order.
pub open spec fn calls_asked(events: Seq<SessionEventView>, pid: i64) -> Seq<EnvdCallView> {
    picked(
        events,
        |event: SessionEventView|
            match event {
                SessionEventView::Client(ClientEventView::Text(Some(message))) => Some(
                    messages::client_call_of(pid, message),
                ),
                _ => None,
            },
    )
}

impl SessionView {
    /// Why the event ends the session, if it does.
    pub open spec fn ended_by(self, event: SessionEventView) -> Option<CloseReason> {
        match (self.state, event) {
            (SessionState::Starting, SessionEventView::StartAnswered(Err(_))) => Some(
                CloseReason::Error,
            ),
            (SessionState::AwaitingPid, SessionEventView::ShellReported(Err(_))) => Some(
                CloseReason::Error,
            ),
            (SessionState::SendingReady { .. }, SessionEventView::Sent(false)) => Some(
                CloseReason::ClientDisconnect,
            ),
            (SessionState::Open { pid }, _) => self.on_open(pid, event).1,
            _ => None,
        }
    }

    /// Why the session has ended after `events`, if it has.
    pub open spec fn end_reason(self, events: Seq<SessionEventView>) -> Option<CloseReason>
        decreases events.len(),
    {
        if events.len() == 0 {
            None
        } else {
            match self.end_reason(events.drop_last()) {
                Some(reason) => Some(reason),
                None => self.run(events.drop_last()).0.ended_by(events.last()),
            }
        }
    }

    /// Whether the client was told of the shell in the course of `events`.
    pub open spec fn announced(self, events: Seq<SessionEventView>) -> bool
        decreases events.len(),
    {
        events.len() > 0 && {
            ||| self.announced(events.drop_last())
            ||| self.run(events.drop_last()).0.state is SendingReady && events.last()
                == SessionEventView::Sent(true)
        }
    }

    /// The audit log of a session with this shell: whether the client was
    /// told of it, and why the session ended, if it did.
    pub open spec fn log(
        self,
        shell: Option<i64>,
        announced: bool,
        ended: Option<CloseReason>,
    ) -> Seq<AuditView> {
        let open = if announced {
            seq![self.record("open"@, shell, None)]
        } else {
            seq![]
        };
        let timeout = if ended == Some(CloseReason::IdleTimeout) {
            seq![self.record("timeout"@, shell, None)]
        } else {
            seq![]
        };
        let close = match ended {
            Some(reason) => seq![self.record("close"@, shell, Some(reason.name()))],
            None => seq![],
        };
        open + timeout + close
    }

    /// How the session stands after `events`, and all that was to be done.
    pub open spec fn run(self, events: Seq<SessionEventView>) -> (
        SessionView,
        Seq<SessionActionView>,
    )
        decreases events.len(),
    {
        if events.len() == 0 {
            (self, seq![])
        } else {
            let (before, actions) = self.run(events.drop_last());
            let (after, more) = before.step(events.last());
            (after, actions + more)
        }
    }
}

/// A session that is over stays over, and does nothing any more.
pub proof fn law_closed_session_does_nothing(session: SessionView, event: SessionEventView)
    requires
        session.state is Closed,
    ensures
        session.step(event) == (session, Seq::<SessionActionView>::empty()),
{
}

/// A session whose shell is known keeps it, whatever happens, and stays the
/// session of its sandbox and its client.
pub proof fn law_session_keeps_its_shell(session: SessionView, events: Seq<SessionEventView>)
    ensures
        session.state.shell() is Some ==> session.run(events).0.state.shell()
            == session.state.shell(),
        session.run(events).0 == session.in_state(session.run(events).0.state),
    decreases events.len(),
{
    if events.len() > 0 {
        law_session_keeps_its_shell(session, events.drop_last());
    }
}

/// What ends an open session is picked from in two parts: what the event calls
/// for, then the teardown.
proof fn lemma_step_picked<T>(
    session: SessionView,
    event: SessionEventView,
    pick: spec_fn(SessionActionView) -> Option<T>,
)
    ensures
        match session.state {
            SessionState::Open { pid } => {
                let (actions, ended) = session.on_open(pid, event);
                match ended {
                    Some(reason) => picked(session.step(event).1, pick) == picked(actions, pick)
                        + picked(session.teardown(pid, reason), pick),
                    None => picked(session.step(event).1, pick) == picked(actions, pick),
                }
            },
            _ => true,
        },
{
    if let SessionState::Open { pid } = session.state {
        let (actions, ended) = session.on_open(pid, event);
        if let Some(reason) = ended {
            lemma_picked_add(actions, session.teardown(pid, reason), pick);
        }
    }
}

proof fn lemma_step_kills(session: SessionView, event: SessionEventView)
    ensures
        kills(session.step(event).1) == (if !(session.state is Closed) && session.step(
            event,
        ).0.state is Closed {
            found(session.step(event).0.state.shell())
        } else {
            seq![]
        }),
{
    let pick = kill_of();
    lemma_picked_short(session.step(event).1, pick);
    lemma_step_picked(session, event, pick);
    if let SessionState::Open { pid } = session.state {
        let (actions, ended) = session.on_open(pid, event);
        lemma_picked_short(actions, pick);
        assert(kills(actions) =~= seq![]);
        if let Some(reason) = ended {
            lemma_picked_short(session.teardown(pid, reason), pick);
            assert(kills(session.teardown(pid, reason)) =~= seq![pid]);
        }
    }
}

/// No shell is left behind: a session that is over has killed the shell that
/// it knew of exactly once, and no session kills anything before its end.
pub proof fn law_shell_is_killed_exactly_once(session: SessionView, events: Seq<SessionEventView>)
    requires
        session.state is Starting,
    ensures
        kills(session.run(events).1) == (match session.run(events).0.state {
            SessionState::Closed { shell: Some(pid) } => seq![pid],
            _ => seq![],
        }),
    decreases events.len(),
{
    if events.len() > 0 {
        law_shell_is_killed_exactly_once(session, events.drop_last());
        let (before, actions) = session.run(events.drop_last());
        let (after, more) = before.step(events.last());
        lemma_step_kills(before, events.last());
        lemma_picked_add(actions, more, kill_of());
        assert(kills(actions + more) =~= kills(actions) + kills(more));
    }
}


proof fn lemma_step_audited(session: SessionView, event: SessionEventView)
    ensures
        audited(session.step(event).1) == session.log(
            session.step(event).0.state.shell(),
            session.state is SendingReady && event == SessionEventView::Sent(true),
            session.ended_by(event),
        ),
        session.ended_by(event) is Some <==> !(session.state is Closed) && session.step(
            event,
        ).0.state is Closed,
{
    let pick = record_of();
    let (after, all) = session.step(event);
    let announced = session.state is SendingReady && event == SessionEventView::Sent(true);
    lemma_picked_short(all, pick);
    lemma_step_picked(session, event, pick);
    if let SessionState::Open { pid } = session.state {
        let (actions, ended) = session.on_open(pid, event);
        lemma_picked_short(actions, pick);
        if let Some(reason) = ended {
            lemma_picked_short(session.teardown(pid, reason), pick);
        }
    }
    assert(audited(all) =~= session.log(
        after.state.shell(),
        announced,
        session.ended_by(event),
    ));
}

/// The audit log tells the story of the session: one open record once the
/// client was told of the shell, a timeout record exactly where idleness was
/// the end, and at the end one close record with the reason for which the
/// closing event ended the session.
pub proof fn law_audit_log_of_a_session(session: SessionView, events: Seq<SessionEventView>)
    requires
        session.state is Starting,
    ensures
        ({
            let after = session.run(events).0.state;
            let ended = session.end_reason(events);
            let announced = session.announced(events);
            &&& audited(session.run(events).1) == session.log(after.shell(), announced, ended)
            &&& after is Closed <==> ended is Some
            &&& after is Open ==> announced
            &&& announced ==> after is Open || after is Closed
        }),
    decreases events.len(),
{
    if events.len() > 0 {
        let earlier = events.drop_last();
        law_audit_log_of_a_session(session, earlier);
        law_session_keeps_its_shell(session, earlier);
        let (before, actions) = session.run(earlier);
        let (after, more) = before.step(events.last());
        lemma_step_audited(before, events.last());
        lemma_picked_add(actions, more, record_of());
        assert(audited(session.run(events).1) == audited(actions) + audited(more));
        assert(audited(session.run(events).1) =~= session.log(
            after.state.shell(),
            session.announced(events),
            session.end_reason(events),
        ));
    } else {
        assert(audited(session.run(events).1) =~= session.log(
            session.state.shell(),
            false,
            None,
        ));
    }
}

/// The idle timer starts anew exactly when the shell was announced to the
/// client, when a client message arrives and when the shell writes output.
pub proof fn law_idle_timer_is_reset_by_activity(session: SessionView, event: SessionEventView)
    ensures
        session.step(event).1.contains(SessionActionView::ResetIdle) <==> match session.state {
            SessionState::SendingReady { .. } => event == SessionEventView::Sent(true),
            SessionState::Open { .. } => match event {
                SessionEventView::Stream(StreamEventView::Output(_)) => true,
                SessionEventView::Client(ClientEventView::Text(_)) => true,
                SessionEventView::Client(ClientEventView::Other) => true,
                _ => false,
            },
            _ => false,
        },
{
    let actions = session.step(event).1;
    if actions.len() > 0 {
        assert(actions.contains(actions[0]));
    }
    if actions.len() > 1 {
        assert(actions.contains(actions[1]));
    }
}

/// Only the idle timer ends a session for idleness.
pub proof fn law_only_the_timer_ends_for_idleness(
    session: SessionView,
    pid: i64,
    event: SessionEventView,
)
    ensures
        session.on_open(pid, event).1 == Some(CloseReason::IdleTimeout) <==> event is Idle,
{
}

/// While a session stays open, every message of the client becomes its envd
/// call and all output of the shell goes to the client, in order, unchanged,
/// each once, and nothing else does.
pub proof fn law_open_session_bridges_client_and_shell(
    session: SessionView,
    pid: i64,
    events: Seq<SessionEventView>,
)
    requires
        session.state == (SessionState::Open { pid }),
        !(session.run(events).0.state is Closed),
    ensures
        session.run(events).0 == session,
        calls(session.run(events).1) == calls_asked(events, pid),
        outputs(session.run(events).1) == outputs_read(events),
    decreases events.len(),
{
    if events.len() > 0 {
        let earlier = events.drop_last();
        let (before, actions) = session.run(earlier);
        law_open_session_bridges_client_and_shell(session, pid, earlier);
        let more = before.step(events.last()).1;
        lemma_picked_add(actions, more, call_of());
        lemma_picked_add(actions, more, output_of());
        lemma_picked_short(more, call_of());
        lemma_picked_short(more, output_of());
        assert(calls(session.run(events).1) =~= calls_asked(events, pid));
        assert(outputs(session.run(events).1) =~= outputs_read(events));
    }
}

/// A frame that cannot be read and one without a meaning leave an open
/// session as it is.
pub proof fn law_bad_frames_are_survived(session: SessionView, error: AppErrorView)
    requires
        session.state is Open,
    ensures
        session.step(SessionEventView::Stream(StreamEventView::Bad(error))) == (
            session,
            Seq::<SessionActionView>::empty(),
        ),
        session.step(SessionEventView::Stream(StreamEventView::Ignored)) == (
            session,
            Seq::<SessionActionView>::empty(),
        ),
{
}

/// What an action tells the client.
pub open spec fn told_of() -> spec_fn(SessionActionView) -> Option<ServerMessageView> {
    |action: SessionActionView|
        match action {
            SessionActionView::Send(message) => Some(message),
            SessionActionView::SendChecked(message) => Some(message),
            _ => None,
        }
}

/// What `actions` tell the client, in order.
pub open spec fn told(actions: Seq<SessionActionView>) -> Seq<ServerMessageView> {
    picked(actions, told_of())
}

/// The client is told of its shell, of all output, of the code the shell exits
/// with, and of what fails, each as it came and once; of nothing else.
pub proof fn law_client_is_told(session: SessionView, event: SessionEventView)
    ensures
        told(session.step(event).1) == (match (session.state, event) {
            (SessionState::Starting, SessionEventView::StartAnswered(Err(error))) => seq![
                ServerMessageView::Error { message: error.text() },
            ],
            (SessionState::AwaitingPid, SessionEventView::ShellReported(Err(error))) => seq![
                ServerMessageView::Error { message: error.text() },
            ],
            (SessionState::AwaitingPid, SessionEventView::ShellReported(Ok(Some(pid)))) => seq![
                ServerMessageView::Ready { pid },
            ],
            (SessionState::Open { .. }, SessionEventView::Stream(stream)) => match stream {
                StreamEventView::Output(data) => seq![ServerMessageView::Output { data }],
                StreamEventView::Exit(code) => seq![ServerMessageView::Exit { code }],
                StreamEventView::Closed => seq![ServerMessageView::Exit { code: None }],
                StreamEventView::EndStream(Some(message)) => seq![
                    ServerMessageView::Error { message },
                ],
                StreamEventView::Failed(error) => seq![
                    ServerMessageView::Error { message: error.text() },
                ],
                _ => seq![],
            },
            (SessionState::Open { .. }, SessionEventView::Client(ClientEventView::Failed(reason)))
                => seq![ServerMessageView::Error { message: "connection error: "@ + reason }],
            (SessionState::Open { .. }, SessionEventView::Idle) => seq![
                ServerMessageView::Error {
                    message: "terminal session timed out after "@ + strings::decimal_of(
                        session.idle_timeout_secs as nat,
                    ) + "s of inactivity"@,
                },
            ],
            _ => Seq::<ServerMessageView>::empty(),
        }),
{
    let pick = told_of();
    lemma_picked_short(session.step(event).1, pick);
    lemma_step_picked(session, event, pick);
    if let SessionState::Open { pid } = session.state {
        let (actions, ended) = session.on_open(pid, event);
        lemma_picked_short(actions, pick);
        if let Some(reason) = ended {
            lemma_picked_short(session.teardown(pid, reason), pick);
            assert(told(session.teardown(pid, reason)) =~= seq![]);
            assert(told(actions) + seq![] =~= told(actions));
        }
    }
}

/// An exit of the shell is reported once, with the code it had, of whatever
/// value, and is the end of the session.
pub proof fn law_exit_is_reported(session: SessionView, pid: i64, code: Option<i64>)
    requires
        session.state == (SessionState::Open { pid }),
    ensures
        ({
            let (after, actions) = session.step(
                SessionEventView::Stream(StreamEventView::Exit(code)),
            );
            &&& told(actions) == seq![ServerMessageView::Exit { code }]
            &&& kills(actions) == seq![pid]
            &&& after.state == (SessionState::Closed { shell: Some(pid) })
        }),
{
    let event = SessionEventView::Stream(StreamEventView::Exit(code));
    law_client_is_told(session, event);
    lemma_step_kills(session, event);
}

/// How a session goes on: through its start to the open session, from there to
/// its end, and unchanged by anything else.
pub proof fn law_session_goes_on(session: SessionView, event: SessionEventView)
    ensures
        session.step(event).0 == (SessionView {
            state: match (session.state, event) {
                (SessionState::Starting, SessionEventView::StartAnswered(Ok(_))) =>
                    SessionState::AwaitingPid,
                (SessionState::Starting, SessionEventView::StartAnswered(Err(_))) =>
                    SessionState::Closed { shell: None },
                (SessionState::AwaitingPid, SessionEventView::ShellReported(Ok(Some(pid)))) =>
                    SessionState::SendingReady { pid },
                (SessionState::AwaitingPid, SessionEventView::ShellReported(Err(_))) =>
                    SessionState::Closed { shell: None },
                (SessionState::SendingReady { pid }, SessionEventView::Sent(true)) =>
                    SessionState::Open { pid },
                (SessionState::SendingReady { pid }, SessionEventView::Sent(false)) =>
                    SessionState::Closed { shell: Some(pid) },
                (SessionState::Open { pid }, SessionEventView::Sent(false)) =>
                    SessionState::Closed { shell: Some(pid) },
                (SessionState::Open { pid }, SessionEventView::Idle) => SessionState::Closed {
                    shell: Some(pid),
                },
                (SessionState::Open { pid }, SessionEventView::Client(client)) => if client is Gone
                    || client is Failed {
                    SessionState::Closed { shell: Some(pid) }
                } else {
                    session.state
                },
                (SessionState::Open { pid }, SessionEventView::Stream(stream)) => if stream
                    is Output || stream is Ignored || stream is Bad {
                    session.state
                } else {
                    SessionState::Closed { shell: Some(pid) }
                },
                _ => session.state,
            },
            ..session
        }),
{
}

impl SessionView {
    /// A line of the audit log on this session, field by field.
    pub open spec fn line(
        self,
        event: Seq<char>,
        pid: Option<i64>,
        reason: Seq<char>,
    ) -> SessionActionView {
        SessionActionView::Audit(
            AuditView {
                event,
                sandbox_id: self.sandbox_id,
                pid,
                user: match self.user {
                    Some(user) => user,
                    None => ""@,
                },
                client_ip: match self.client_ip {
                    Some(ip) => ip,
                    None => ""@,
                },
                reason,
            },
        )
    }
}

/// A session with a shell ends in one way: the stream is dropped, the shell
/// killed, the client sent a close frame, the connection closed and the end
/// recorded with its cause. Before that the client is told, and a timeout
/// recorded, where that is the cause.
pub proof fn law_session_ends_in_order(session: SessionView, pid: i64, event: SessionEventView)
    requires
        session.state == (SessionState::Open { pid }) || session.state == (
        SessionState::SendingReady { pid }),
        session.step(event).0.state is Closed,
    ensures
        ({
            let actions = session.step(event).1;
            let end = actions.len() - 5;
            let reason = match event {
                SessionEventView::Idle => "idle-timeout"@,
                SessionEventView::Stream(StreamEventView::Failed(_)) => "error"@,
                SessionEventView::Stream(_) => "envd-exit"@,
                _ => "client-disconnect"@,
            };
            &&& end == told(actions).len() + (if event is Idle {
                1int
            } else {
                0int
            })
            &&& event is Idle ==> actions[1] == session.line("timeout"@, Some(pid), ""@)
            &&& actions.skip(end) == seq![
                SessionActionView::DropStream,
                SessionActionView::Call(EnvdCallView::Kill { pid }),
                SessionActionView::SendClose,
                SessionActionView::CloseSocket,
                session.line("close"@, Some(pid), reason),
            ]
        }),
{
    law_client_is_told(session, event);
    let actions = session.step(event).1;
    let end = actions.len() - 5;
    assert(actions.skip(end) =~= session.teardown(pid, session.ended_by(event)->0));
}

/// A session without a shell ends with the client told why, the connection
/// closed and the failure recorded.
pub proof fn law_failed_start_is_answered(session: SessionView, error: AppErrorView)
    ensures
        ({
            let answer = seq![
                SessionActionView::Send(ServerMessageView::Error { message: error.text() }),
                SessionActionView::CloseSocket,
                session.line("close"@, None, "error"@),
            ];
            &&& session.state is Starting ==> session.step(
                SessionEventView::StartAnswered(Err(error)),
            ).1 == answer
            &&& session.state is AwaitingPid ==> session.step(
                SessionEventView::ShellReported(Err(error)),
            ).1 == answer
        }),
{
}

/// A session is recorded as open, with its shell, once the client was told of
/// it.
pub proof fn law_open_session_is_recorded(session: SessionView, pid: i64)
    requires
        session.state == (SessionState::SendingReady { pid }),
    ensures
        session.step(SessionEventView::Sent(true)).1 == seq![
            session.line("open"@, Some(pid), ""@),
            SessionActionView::ResetIdle,
        ],
{
}

/// The input that an action sends, and the shell it goes to.
pub open spec fn input_of() -> spec_fn(SessionActionView) -> Option<(i64, Seq<char>)> {
    |action: SessionActionView|
        match action {
            SessionActionView::Call(EnvdCallView::SendInput { pid, data }) => Some((pid, data)),
            _ => None,
        }
}

/// The input that `actions` send, in order, and the shells it goes to.
pub open spec fn inputs(actions: Seq<SessionActionView>) -> Seq<(i64, Seq<char>)> {
    picked(actions, input_of())
}

/// The input that the client types in the course of `events`, in order, and
/// the shell that it is for.
pub open spec fn inputs_typed(events: Seq<SessionEventView>, pid: i64) -> Seq<(i64, Seq<char>)> {
    picked(
        events,
        |event: SessionEventView|
            match event {
                SessionEventView::Client(ClientEventView::Text(Some(message))) => match message {
                    ClientMessageView::Input { data } => Some((pid, data)),
                    _ => None,
                },
                _ => None,
            },
    )
}

/// The size that an action sets, and the shell it is for.
pub open spec fn size_of() -> spec_fn(SessionActionView) -> Option<(i64, u32, u32)> {
    |action: SessionActionView|
        match action {
            SessionActionView::Call(EnvdCallView::Update { pid, rows, cols }) => Some(
                (pid, cols, rows),
            ),
            _ => None,
        }
}

/// The sizes that `actions` set, in order: shell, columns, rows.
pub open spec fn sizes(actions: Seq<SessionActionView>) -> Seq<(i64, u32, u32)> {
    picked(actions, size_of())
}

/// The sizes that the client asks for in the course of `events`, in order:
/// columns, rows.
pub open spec fn sizes_asked(events: Seq<SessionEventView>) -> Seq<(u32, u32)> {
    picked(
        events,
        |event: SessionEventView|
            match event {
                SessionEventView::Client(ClientEventView::Text(Some(message))) => match message {
                    ClientMessageView::Resize { cols, rows } => Some((cols, rows)),
                    _ => None,
                },
                _ => None,
            },
    )
}

/// What is sent to the shell of an open session is, in order, the data of the
/// client's input messages, each whole and of whatever length.
pub proof fn law_typed_input_reaches_the_shell(
    session: SessionView,
    pid: i64,
    events: Seq<SessionEventView>,
)
    requires
        session.state == (SessionState::Open { pid }),
        !(session.run(events).0.state is Closed),
    ensures
        inputs(session.run(events).1) == inputs_typed(events, pid),
    decreases events.len(),
{
    if events.len() > 0 {
        let earlier = events.drop_last();
        let (before, actions) = session.run(earlier);
        law_typed_input_reaches_the_shell(session, pid, earlier);
        law_open_session_bridges_client_and_shell(session, pid, earlier);
        let more = before.step(events.last()).1;
        lemma_picked_add(actions, more, input_of());
        lemma_picked_short(more, input_of());
        assert(inputs(session.run(events).1) =~= inputs_typed(events, pid));
    }
}

/// The PTY of an open session is set, in order, to each size that the client
/// asks for, as near as the bounds of a PTY allow.
pub proof fn law_resizes_reach_the_shell(
    session: SessionView,
    pid: i64,
    events: Seq<SessionEventView>,
)
    requires
        session.state == (SessionState::Open { pid }),
        !(session.run(events).0.state is Closed),
    ensures
        sizes(session.run(events).1).len() == sizes_asked(events).len(),
        forall|i: int|
            0 <= i < sizes_asked(events).len() ==> {
                let (shell, cols, rows) = #[trigger] sizes(session.run(events).1)[i];
                &&& shell == pid
                &&& messages::is_nearest_size(cols, sizes_asked(events)[i].0)
                &&& messages::is_nearest_size(rows, sizes_asked(events)[i].1)
            },
    decreases events.len(),
{
    if events.len() > 0 {
        let earlier = events.drop_last();
        let (before, actions) = session.run(earlier);
        law_resizes_reach_the_shell(session, pid, earlier);
        law_open_session_bridges_client_and_shell(session, pid, earlier);
        let more = before.step(events.last()).1;
        lemma_picked_add(actions, more, size_of());
        lemma_picked_short(more, size_of());
        let set = sizes(session.run(events).1);
        assert(set =~= sizes(actions) + sizes(more));
        if let SessionEventView::Client(ClientEventView::Text(Some(ClientMessageView::Resize {
            cols,
            rows,
        }))) = events.last() {
            messages::law_resize_is_forwarded(pid, cols, rows);
            assert(sizes(more).len() == 1);
            assert(sizes_asked(events) =~= sizes_asked(earlier).push((cols, rows)));
        } else {
            assert(sizes(more) =~= seq![]);
            assert(sizes_asked(events) =~= sizes_asked(earlier));
        }
        assert forall|i: int| 0 <= i < sizes_asked(events).len() implies {
            let (shell, cols, rows) = #[trigger] set[i];
            &&& shell == pid
            &&& messages::is_nearest_size(cols, sizes_asked(events)[i].0)
            &&& messages::is_nearest_size(rows, sizes_asked(events)[i].1)
        } by {
            if i < sizes(actions).len() {
                assert(set[i] == sizes(actions)[i]);
            }
        }
    }
}

/// A session starts with what it was given, each whole, and is routed to the
/// envd of its sandbox.
pub proof fn law_session_starts_with_what_it_is_given(
    config: ConfigView,
    sandbox_id: Seq<char>,
    user: Option<Seq<char>>,
    client_ip: Option<Seq<char>>,
    idle_timeout_secs: u64,
)
    ensures
        session_of(config, sandbox_id, user, client_ip, idle_timeout_secs) == (SessionView {
            sandbox_id,
            host: envd::envd_host_of(sandbox_id, config.sandbox_domain),
            user,
            client_ip,
            idle_timeout_secs,
            state: SessionState::Starting,
        }),
{
}

/// What reading the stream of an open session means: a last frame is the end,
/// with the error that it carries; of another frame its event counts; the end
/// of the stream and a failure are told apart.
pub proof fn law_stream_is_understood(frame: FrameView, error: AppErrorView)
    ensures
        ({
            let read = stream_event_of(Ok(Some(frame)));
            let document = json::json_document(frame.payload);
            let last = (frame.flags as int / 2) % 2 == 1;
            &&& last ==> read == StreamEventView::EndStream(envd::end_error_of(document))
            &&& !last ==> match envd::data_event_of(document) {
                Ok(Some(EnvdEventView::Output(data))) => read == StreamEventView::Output(data),
                Ok(Some(EnvdEventView::Exit(code))) => read == StreamEventView::Exit(code),
                Ok(None) => read is Ignored,
                Err(bad) => read == StreamEventView::Bad(bad),
            }
        }),
        stream_event_of(Ok(None)) is Closed,
        stream_event_of(Err(error)) == StreamEventView::Failed(error),
{
    crate::connect::law_end_stream_flag(frame.flags, frame.payload);
}

/// Events say exactly what they hold.
pub proof fn law_events_say_what_they_hold(
    text: String,
    code: Option<i64>,
    error: AppError,
    message: ClientMessage,
    stream: StreamEvent,
    client: ClientEvent,
    start: Result<Option<i64>, AppError>,
    sent: bool,
    frame: ConnectFrame,
)
    ensures
        StreamEvent::Output(text)@ == StreamEventView::Output(text@),
        StreamEvent::Exit(code)@ == StreamEventView::Exit(code),
        StreamEvent::Ignored@ is Ignored,
        StreamEvent::Bad(error)@ == StreamEventView::Bad(error@),
        StreamEvent::EndStream(Some(text))@ == StreamEventView::EndStream(Some(text@)),
        StreamEvent::EndStream(None)@ == StreamEventView::EndStream(None),
        StreamEvent::Closed@ is Closed,
        StreamEvent::Failed(error)@ == StreamEventView::Failed(error@),
        ClientEvent::Text(Some(message))@ == ClientEventView::Text(Some(message@)),
        ClientEvent::Text(None)@ == ClientEventView::Text(None),
        ClientEvent::Other@ is Other,
        ClientEvent::Gone@ is Gone,
        ClientEvent::Failed(text)@ == ClientEventView::Failed(text@),
        SessionEvent::StartAnswered(Ok(()))@ == SessionEventView::StartAnswered(Ok(())),
        SessionEvent::StartAnswered(Err(error))@ == SessionEventView::StartAnswered(Err(error@)),
        SessionEvent::ShellReported(start)@ == SessionEventView::ShellReported(
            match start {
                Ok(pid) => Ok(pid),
                Err(failed) => Err(failed@),
            },
        ),
        SessionEvent::Sent(sent)@ == SessionEventView::Sent(sent),
        SessionEvent::Stream(stream)@ == SessionEventView::Stream(stream@),
        SessionEvent::Client(client)@ == SessionEventView::Client(client@),
        SessionEvent::Idle@ is Idle,
        read_result(Ok(Some(frame))) == Ok::<Option<FrameView>, AppErrorView>(Some(frame@)),
        read_result(Ok(None)) == Ok::<Option<FrameView>, AppErrorView>(None),
        read_result(Err(error)) == Err::<Option<FrameView>, AppErrorView>(error@),
{
}

/// Actions say exactly what they hold.
pub proof fn law_actions_say_what_they_hold(
    message: ServerMessage,
    call: EnvdCall,
    record: AuditRecord,
    actions: Seq<SessionAction>,
    i: int,
)
    ensures
        SessionAction::Send(message)@ == SessionActionView::Send(message@),
        SessionAction::SendChecked(message)@ == SessionActionView::SendChecked(message@),
        SessionAction::ResetIdle@ is ResetIdle,
        SessionAction::Call(call)@ == SessionActionView::Call(call@),
        SessionAction::DropStream@ is DropStream,
        SessionAction::SendClose@ is SendClose,
        SessionAction::CloseSocket@ is CloseSocket,
        SessionAction::Audit(record)@ == SessionActionView::Audit(record@),
        action_views(actions).len() == actions.len(),
        0 <= i < actions.len() ==> action_views(actions)[i] == actions[i]@,
{
}

} // verus!
