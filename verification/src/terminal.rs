//! Terminal sessions bridged to a browser: admission, resize bounds, and
//! the decisions each bridge takes on every client message and terminal
//! event, with the outcome recorded when the session ends.

use vstd::prelude::*;
use crate::text::{chars_of, split_chars, split_on, string_of};

verus! {

pub const MIN_DIMENSION: u16 = 1;
pub const MAX_DIMENSION: u16 = 1000;

/// Most remote terminals open at once across the service.
pub const MAX_CONCURRENT_TERMINALS: usize = 64;

/// A resize is applied only with both dimensions within bounds.
pub fn valid_dimensions(cols: u16, rows: u16) -> (ok: bool)
    ensures
        ok == (MIN_DIMENSION <= cols <= MAX_DIMENSION && MIN_DIMENSION <= rows <= MAX_DIMENSION),
{
    MIN_DIMENSION <= cols && cols <= MAX_DIMENSION && MIN_DIMENSION <= rows && rows <= MAX_DIMENSION
}

/// A new remote terminal is admitted while fewer than
/// [`MAX_CONCURRENT_TERMINALS`] were open before it.
pub fn admit_terminal(open_before: usize) -> (ok: bool)
    ensures
        ok == (open_before < MAX_CONCURRENT_TERMINALS),
{
    open_before < MAX_CONCURRENT_TERMINALS
}

/// The session token re-checked during a remote terminal: the text after
/// the first `=` of the saved `Cookie` header up to the next `=`, or the
/// whole header when it has no `=`.
pub open spec fn spec_revalidation_token(cookie: Seq<char>) -> Seq<char> {
    let parts = split_on(cookie, '=');
    if parts.len() >= 2 {
        parts[1]
    } else {
        cookie
    }
}

pub fn revalidation_token(cookie: &str) -> (t: String)
    ensures
        t@ == spec_revalidation_token(cookie@),
{
    let parts = split_chars(chars_of(cookie).as_slice(), '=');
    if parts.len() >= 2 {
        string_of(parts[1].as_slice())
    } else {
        string_of(chars_of(cookie).as_slice())
    }
}

/// What happens in a remote terminal session.
#[derive(Clone, Debug)]
pub enum RemoteTerminalEvent {
    /// The periodic re-check: the server is still the user's, and the
    /// browser session is still valid.
    Revalidated { server_ok: bool, session_ok: bool },
    /// Keystrokes from the client.
    ClientBinary(Vec<u8>),
    /// A resize request from the client.
    ClientResize { cols: u16, rows: u16 },
    /// The client asked to close.
    ClientCloseRequest,
    /// A text message that is no known request.
    ClientMalformed,
    /// The client closed the socket.
    ClientClose,
    ClientPing(Vec<u8>),
    ClientPong,
    /// The client connection ended or failed.
    ClientGone,
    /// Output of the remote shell.
    TerminalOutput(Vec<u8>),
    /// The remote shell exited.
    TerminalExit(Option<u32>),
    /// The remote channel closed.
    TerminalClosed,
}

/// Why a session ended, as recorded.
#[derive(Clone, Copy, Debug, PartialEq, Eq)]
pub enum CloseReason {
    Closed,
    Revoked,
    Exited,
}

/// What the bridge does next.
#[derive(Clone, Debug)]
pub enum RemoteTerminalAction {
    Continue,
    /// Write to the shell; end the session as closed if that fails.
    WriteInput(Vec<u8>),
    Resize { cols: u16, rows: u16 },
    SendPong(Vec<u8>),
    /// Send output to the client; end the session as closed if that fails.
    SendOutput(Vec<u8>),
    /// Tell the client access was revoked, and end the session.
    RevokeAndStop,
    /// Tell the client the exit code, and end the session as exited.
    ExitAndStop(Option<u32>),
    /// End the session.
    Stop(CloseReason),
}

/// The remote terminal's rule for each event: a failed re-check revokes
/// the session, only in-bounds resizes are applied, malformed messages are
/// ignored, and the shell's exit or close ends the session.
pub fn remote_terminal_step(event: RemoteTerminalEvent) -> (a: RemoteTerminalAction)
    ensures
        match event {
            RemoteTerminalEvent::Revalidated { server_ok, session_ok } => if server_ok
                && session_ok {
                a is Continue
            } else {
                a is RevokeAndStop
            },
            RemoteTerminalEvent::ClientBinary(d) => a == RemoteTerminalAction::WriteInput(d),
            RemoteTerminalEvent::ClientResize { cols, rows } => if MIN_DIMENSION <= cols
                <= MAX_DIMENSION && MIN_DIMENSION <= rows <= MAX_DIMENSION {
                a == (RemoteTerminalAction::Resize { cols, rows })
            } else {
                a is Continue
            },
            RemoteTerminalEvent::ClientCloseRequest => a == RemoteTerminalAction::Stop(
                CloseReason::Closed,
            ),
            RemoteTerminalEvent::ClientMalformed => a is Continue,
            RemoteTerminalEvent::ClientClose => a == RemoteTerminalAction::Stop(CloseReason::Closed),
            RemoteTerminalEvent::ClientPing(d) => a == RemoteTerminalAction::SendPong(d),
            RemoteTerminalEvent::ClientPong => a is Continue,
            RemoteTerminalEvent::ClientGone => a == RemoteTerminalAction::Stop(CloseReason::Closed),
            RemoteTerminalEvent::TerminalOutput(d) => a == RemoteTerminalAction::SendOutput(d),
            RemoteTerminalEvent::TerminalExit(code) => a == RemoteTerminalAction::ExitAndStop(code),
            RemoteTerminalEvent::TerminalClosed => a == RemoteTerminalAction::Stop(
                CloseReason::Exited,
            ),
        },
{
    match event {
        RemoteTerminalEvent::Revalidated { server_ok, session_ok } => {
            if server_ok && session_ok {
                RemoteTerminalAction::Continue
            } else {
                RemoteTerminalAction::RevokeAndStop
            }
        },
        RemoteTerminalEvent::ClientBinary(d) => RemoteTerminalAction::WriteInput(d),
        RemoteTerminalEvent::ClientResize { cols, rows } => {
            if valid_dimensions(cols, rows) {
                RemoteTerminalAction::Resize { cols, rows }
            } else {
                RemoteTerminalAction::Continue
            }
        },
        RemoteTerminalEvent::ClientCloseRequest => RemoteTerminalAction::Stop(CloseReason::Closed),
        RemoteTerminalEvent::ClientMalformed => RemoteTerminalAction::Continue,
        RemoteTerminalEvent::ClientClose => RemoteTerminalAction::Stop(CloseReason::Closed),
        RemoteTerminalEvent::ClientPing(d) => RemoteTerminalAction::SendPong(d),
        RemoteTerminalEvent::ClientPong => RemoteTerminalAction::Continue,
        RemoteTerminalEvent::ClientGone => RemoteTerminalAction::Stop(CloseReason::Closed),
        RemoteTerminalEvent::TerminalOutput(d) => RemoteTerminalAction::SendOutput(d),
        RemoteTerminalEvent::TerminalExit(code) => RemoteTerminalAction::ExitAndStop(code),
        RemoteTerminalEvent::TerminalClosed => RemoteTerminalAction::Stop(CloseReason::Exited),
    }
}

/// The reason and exit code recorded when a session ends after `action`
/// (and, for a write or send, after that failed).
pub open spec fn recorded_end(action: RemoteTerminalAction) -> Option<(CloseReason, Option<u32>)> {
    match action {
        RemoteTerminalAction::RevokeAndStop => Some((CloseReason::Revoked, None)),
        RemoteTerminalAction::ExitAndStop(code) => Some((CloseReason::Exited, code)),
        RemoteTerminalAction::Stop(r) => Some((r, None)),
        RemoteTerminalAction::WriteInput(_) | RemoteTerminalAction::SendOutput(_) => Some(
            (CloseReason::Closed, None),
        ),
        _ => None,
    }
}

/// A session whose re-check fails always ends, and is recorded as revoked.
pub proof fn lemma_failed_recheck_revokes(server_ok: bool, session_ok: bool, a: RemoteTerminalAction)
    requires
        !(server_ok && session_ok),
        a is RevokeAndStop,
    ensures
        recorded_end(a) == Some((CloseReason::Revoked, None::<u32>)),
{
}

/// A client message to the local terminal, as the bridge sees it.
#[derive(Clone, Debug)]
pub enum LocalClientInput {
    /// A request to forward to the terminal worker; `close` when it asks
    /// the terminal to close.
    Request { close: bool },
    /// A text message that is no known request.
    Unparsed,
    Ping(Vec<u8>),
    Pong,
    /// Receiving from the client failed.
    Failed,
    /// The client connection ended.
    Ended,
}

/// A terminal worker message, as the bridge sees it.
#[derive(Clone, Debug)]
pub enum LocalServerInput {
    Output(Vec<u8>),
    /// The shell exited; the message is relayed.
    Exit,
    /// The worker reported an error; the message is relayed.
    Error,
    /// The worker stream ended.
    Ended,
}

/// What the local terminal bridge does next.
#[derive(Clone, Debug, PartialEq, Eq)]
pub enum LocalTerminalAction {
    /// Forward the request; end the session (failed) if that fails, and
    /// end it (succeeded) afterwards when it was a close.
    Forward { then_stop: bool },
    /// Answer a ping; end the session (failed) if that fails.
    SendPong(Vec<u8>),
    Ignore,
    /// Send output; end the session (succeeded) if that fails.
    SendOutput(Vec<u8>),
    /// Relay the worker's final message, and end the session.
    RelayAndStop { failed: bool },
    /// End the session.
    Stop { failed: bool },
}

/// The local terminal bridge's rule for a client message.
pub fn local_client_step(input: LocalClientInput) -> (a: LocalTerminalAction)
    ensures
        match input {
            LocalClientInput::Request { close } => a == (LocalTerminalAction::Forward {
                then_stop: close,
            }),
            LocalClientInput::Unparsed => a == LocalTerminalAction::Ignore,
            LocalClientInput::Ping(d) => a == LocalTerminalAction::SendPong(d),
            LocalClientInput::Pong => a == LocalTerminalAction::Ignore,
            LocalClientInput::Failed => a == (LocalTerminalAction::Stop { failed: true }),
            LocalClientInput::Ended => a == (LocalTerminalAction::Stop { failed: false }),
        },
{
    match input {
        LocalClientInput::Request { close } => LocalTerminalAction::Forward { then_stop: close },
        LocalClientInput::Unparsed => LocalTerminalAction::Ignore,
        LocalClientInput::Ping(d) => LocalTerminalAction::SendPong(d),
        LocalClientInput::Pong => LocalTerminalAction::Ignore,
        LocalClientInput::Failed => LocalTerminalAction::Stop { failed: true },
        LocalClientInput::Ended => LocalTerminalAction::Stop { failed: false },
    }
}

/// The local terminal bridge's rule for a worker message: only a worker
/// error ends the session as failed.
pub fn local_server_step(input: LocalServerInput) -> (a: LocalTerminalAction)
    ensures
        match input {
            LocalServerInput::Output(d) => a == LocalTerminalAction::SendOutput(d),
            LocalServerInput::Exit => a == (LocalTerminalAction::RelayAndStop { failed: false }),
            LocalServerInput::Error => a == (LocalTerminalAction::RelayAndStop { failed: true }),
            LocalServerInput::Ended => a == (LocalTerminalAction::Stop { failed: false }),
        },
{
    match input {
        LocalServerInput::Output(d) => LocalTerminalAction::SendOutput(d),
        LocalServerInput::Exit => LocalTerminalAction::RelayAndStop { failed: false },
        LocalServerInput::Error => LocalTerminalAction::RelayAndStop { failed: true },
        LocalServerInput::Ended => LocalTerminalAction::Stop { failed: false },
    }
}

/// The recorded result of a session: `failure` or `success`.
pub fn session_result(failed: bool) -> (r: &'static str)
    ensures
        r@ == (if failed {
            "failure"@
        } else {
            "success"@
        }),
{
    if failed {
        "failure"
    } else {
        "success"
    }
}

} // verus!
