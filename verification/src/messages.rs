//! The messages that travel between the browser, the service and envd.

use vstd::prelude::*;

verus! {

/// PTY size bounds accepted from clients.
pub const MIN_PTY_SIZE: u32 = 1;

pub const MAX_PTY_SIZE: u32 = 500;

pub const DEFAULT_COLS: u32 = 80;

pub const DEFAULT_ROWS: u32 = 24;

/// The nearest PTY size to the one asked for, or to `default`.
pub open spec fn clamped(value: Option<u32>, default: u32) -> u32 {
    let wanted = match value {
        Some(v) => v,
        None => default,
    };
    if wanted < MIN_PTY_SIZE {
        MIN_PTY_SIZE
    } else if wanted > MAX_PTY_SIZE {
        MAX_PTY_SIZE
    } else {
        wanted
    }
}

/// The PTY size asked for, or `default`, within the accepted bounds.
pub fn clamp_size(value: Option<u32>, default: u32) -> (size: u32)
    ensures
        size == clamped(value, default),
        MIN_PTY_SIZE <= size <= MAX_PTY_SIZE,
{
    let wanted: u32 = value.unwrap_or(default);
    if wanted < MIN_PTY_SIZE {
        MIN_PTY_SIZE
    } else if wanted > MAX_PTY_SIZE {
        MAX_PTY_SIZE
    } else {
        wanted
    }
}

/// Client → server WebSocket messages.
#[derive(Debug, PartialEq, Eq)]
pub enum ClientMessage {
    /// Base64-encoded bytes written to the PTY.
    Input { data: String },
    /// A new PTY size.
    Resize { cols: u32, rows: u32 },
}

/// What a [`ClientMessage`] says.
pub ghost enum ClientMessageView {
    Input { data: Seq<char> },
    Resize { cols: u32, rows: u32 },
}

impl View for ClientMessage {
    type V = ClientMessageView;

    open spec fn view(&self) -> ClientMessageView {
        match self {
            ClientMessage::Input { data } => ClientMessageView::Input { data: data@ },
            ClientMessage::Resize { cols, rows } => ClientMessageView::Resize {
                cols: *cols,
                rows: *rows,
            },
        }
    }
}

/// Server → client WebSocket messages.
#[derive(Debug, PartialEq, Eq)]
pub enum ServerMessage {
    /// The shell runs.
    Ready { pid: i64 },
    /// Base64-encoded bytes read from the PTY.
    Output { data: String },
    /// The shell is gone.
    Exit { code: Option<i64> },
    /// Something went wrong.
    Error { message: String },
}

/// What a [`ServerMessage`] says.
pub ghost enum ServerMessageView {
    Ready { pid: i64 },
    Output { data: Seq<char> },
    Exit { code: Option<i64> },
    Error { message: Seq<char> },
}

impl View for ServerMessage {
    type V = ServerMessageView;

    open spec fn view(&self) -> ServerMessageView {
        match self {
            ServerMessage::Ready { pid } => ServerMessageView::Ready { pid: *pid },
            ServerMessage::Output { data } => ServerMessageView::Output { data: data@ },
            ServerMessage::Exit { code } => ServerMessageView::Exit { code: *code },
            ServerMessage::Error { message } => ServerMessageView::Error { message: message@ },
        }
    }
}

/// A unary call to envd.
#[derive(Debug, PartialEq, Eq)]
pub enum EnvdCall {
    /// Writes base64-encoded bytes to the PTY.
    SendInput { pid: i64, data: String },
    /// Sets the PTY size.
    Update { pid: i64, rows: u32, cols: u32 },
    /// Kills the shell.
    Kill { pid: i64 },
}

/// What an [`EnvdCall`] asks for.
pub ghost enum EnvdCallView {
    SendInput { pid: i64, data: Seq<char> },
    Update { pid: i64, rows: u32, cols: u32 },
    Kill { pid: i64 },
}

impl View for EnvdCall {
    type V = EnvdCallView;

    open spec fn view(&self) -> EnvdCallView {
        match self {
            EnvdCall::SendInput { pid, data } => EnvdCallView::SendInput { pid: *pid, data: data@ },
            EnvdCall::Update { pid, rows, cols } => EnvdCallView::Update {
                pid: *pid,
                rows: *rows,
                cols: *cols,
            },
            EnvdCall::Kill { pid } => EnvdCallView::Kill { pid: *pid },
        }
    }
}

impl EnvdCallView {
    /// The shell that the call is about.
    pub open spec fn shell(self) -> i64 {
        match self {
            EnvdCallView::SendInput { pid, .. } => pid,
            EnvdCallView::Update { pid, .. } => pid,
            EnvdCallView::Kill { pid } => pid,
        }
    }
}

/// The envd call that a client message asks for.
pub open spec fn client_call_of(pid: i64, message: ClientMessageView) -> EnvdCallView {
    match message {
        ClientMessageView::Input { data } => EnvdCallView::SendInput { pid, data },
        ClientMessageView::Resize { cols, rows } => EnvdCallView::Update {
            pid,
            rows: clamped(Some(rows), DEFAULT_ROWS),
            cols: clamped(Some(cols), DEFAULT_COLS),
        },
    }
}

/// Handle one client message for the shell `pid`: input is forwarded as it
/// is, a resize within the accepted bounds.
pub fn handle_client_message(pid: i64, message: ClientMessage) -> (call: EnvdCall)
    ensures
        call@ == client_call_of(pid, message@),
        message matches ClientMessage::Input { data } ==> (call matches EnvdCall::SendInput {
            pid: shell,
            data: sent,
        } && shell == pid && sent@ == data@),
{
    match message {
        ClientMessage::Input { data } => EnvdCall::SendInput { pid, data },
        ClientMessage::Resize { cols, rows } => EnvdCall::Update {
            pid,
            rows: clamp_size(Some(rows), DEFAULT_ROWS),
            cols: clamp_size(Some(cols), DEFAULT_COLS),
        },
    }
}

/// Why a session is being torn down; recorded in the audit log.
#[derive(Debug, Clone, Copy, PartialEq, Eq, Structural)]
pub enum CloseReason {
    ClientDisconnect,
    EnvdExit,
    IdleTimeout,
    Error,
}

impl CloseReason {
    /// The reason as the audit log names it.
    pub open spec fn name(self) -> Seq<char> {
        match self {
            CloseReason::ClientDisconnect => "client-disconnect"@,
            CloseReason::EnvdExit => "envd-exit"@,
            CloseReason::IdleTimeout => "idle-timeout"@,
            CloseReason::Error => "error"@,
        }
    }

    /// The reason as the audit log names it.
    pub fn as_str(&self) -> (name: &'static str)
        ensures
            name@ == self.name(),
    {
        match self {
            CloseReason::ClientDisconnect => "client-disconnect",
            CloseReason::EnvdExit => "envd-exit",
            CloseReason::IdleTimeout => "idle-timeout",
            CloseReason::Error => "error",
        }
    }
}

// ── Laws ────────────────────────────────────────────────────────────────

/// How far apart two sizes are.
pub open spec fn distance(a: int, b: int) -> int {
    if a < b {
        b - a
    } else {
        a - b
    }
}

/// Whether `size` is a PTY size, and none is nearer to the one asked for.
pub open spec fn is_nearest_size(size: u32, wanted: u32) -> bool {
    &&& 1 <= size <= 500
    &&& forall|other: int|
        1 <= other <= 500 ==> distance(size as int, wanted as int) <= #[trigger] distance(
            other,
            wanted as int,
        )
}

/// A size that is asked for is granted as near as the bounds of a PTY allow,
/// and where none is asked for, so is the default.
pub proof fn law_size_is_the_nearest(value: Option<u32>, default: u32)
    ensures
        value matches Some(wanted) ==> is_nearest_size(clamped(value, default), wanted),
        value is None ==> is_nearest_size(clamped(value, default), default),
{
}

/// A size within the bounds is granted as it is.
pub proof fn law_size_within_bounds_is_kept(wanted: u32, default: u32)
    requires
        1 <= wanted <= 500,
    ensures
        clamped(Some(wanted), default) == wanted,
        clamped(None, wanted) == wanted,
{
}

/// What the client types goes to its shell as it came, of whatever length.
pub proof fn law_input_is_forwarded_whole(pid: i64, data: Seq<char>)
    ensures
        client_call_of(pid, ClientMessageView::Input { data }) == (EnvdCallView::SendInput {
            pid,
            data,
        }),
{
}

/// A resize goes to the client's shell, each side of the size for itself and
/// as near as the bounds of a PTY allow.
pub proof fn law_resize_is_forwarded(pid: i64, cols: u32, rows: u32)
    ensures
        client_call_of(pid, ClientMessageView::Resize { cols, rows }) matches EnvdCallView::Update {
            pid: shell,
            rows: r,
            cols: c,
        } && shell == pid && is_nearest_size(r, rows) && is_nearest_size(c, cols),
{
}

/// The audit log knows four reasons.
pub proof fn law_reason_names()
    ensures
        CloseReason::ClientDisconnect.name() == "client-disconnect"@,
        CloseReason::EnvdExit.name() == "envd-exit"@,
        CloseReason::IdleTimeout.name() == "idle-timeout"@,
        CloseReason::Error.name() == "error"@,
{
}

/// Messages and calls say exactly what they hold.
pub proof fn law_messages_say_what_they_hold(
    text: String,
    pid: i64,
    cols: u32,
    rows: u32,
    code: Option<i64>,
)
    ensures
        (ClientMessage::Input { data: text })@ == (ClientMessageView::Input { data: text@ }),
        (ClientMessage::Resize { cols, rows })@ == (ClientMessageView::Resize { cols, rows }),
        (ServerMessage::Ready { pid })@ == (ServerMessageView::Ready { pid }),
        (ServerMessage::Output { data: text })@ == (ServerMessageView::Output { data: text@ }),
        (ServerMessage::Exit { code })@ == (ServerMessageView::Exit { code }),
        (ServerMessage::Error { message: text })@ == (ServerMessageView::Error { message: text@ }),
        (EnvdCall::SendInput { pid, data: text })@ == (EnvdCallView::SendInput {
            pid,
            data: text@,
        }),
        (EnvdCall::Update { pid, rows, cols })@ == (EnvdCallView::Update { pid, rows, cols }),
        (EnvdCall::Kill { pid })@ == (EnvdCallView::Kill { pid }),
{
}

} // verus!
