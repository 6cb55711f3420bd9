//! The states of a session and what moves it from one to the next. The session
//! itself reads and writes; here stands what it decides.

use vstd::prelude::*;
use vstd::utf8::encode_utf8;
use crate::endian::append;
use crate::error::{Context, Error};
use crate::frame::{Flag, Frame, Opcode};
use crate::request::Compression;

verus! {

/// The states of a session.
#[derive(Debug, Clone, Copy, PartialEq, Eq, Structural)]
pub enum SessionState {
    Disconnected,
    Starting,
    Authenticating,
    Ready,
    Closed,
}

/// What happens to a session.
#[derive(Debug, Clone, Copy, PartialEq, Eq, Structural)]
pub enum Event {
    /// The transport was opened.
    Opened,
    /// A frame with this opcode came from the server.
    Received(Opcode),
    /// The caller asks for a query, a prepare, an execute or a batch.
    Requested,
    /// The transport failed.
    IoFailed,
    /// What came from the server could not be decoded. Where the end of the frame is
    /// known all the same, the bytes that follow it can still be read as frames.
    DecodeFailed { context: Context, boundary_kept: bool },
}

/// What a session has to do next.
#[derive(Debug, Clone, Copy, PartialEq, Eq, Structural)]
pub enum Action {
    /// Send a STARTUP and wait for the answer.
    SendStartup,
    /// Ask the authenticator for its first token, send it in an AUTH_RESPONSE and
    /// wait for the answer.
    SendFirstToken,
    /// Hand the challenge to the authenticator, send its token in an AUTH_RESPONSE
    /// and wait for the answer.
    AnswerChallenge,
    /// Tell the caller that the session is ready.
    ReportReady,
    /// Send the request on stream 0 and wait for its answer.
    SendRequest,
    /// Hand the body of the frame to the caller: the result of a request, the options
    /// that the server supports, or its word that it will report events.
    Deliver,
    /// Hand the event to the listener, if there is one, and wait on.
    Notify,
    /// Give up with this error.
    Fail(Error),
}

/// The state of a session after something could not be decoded. A ready session
/// goes on where the end of the frame is known; a session that was still shaking
/// hands is closed, as is every session that has lost track of where frames end.
pub open spec fn after_decode_failure(state: SessionState, boundary_kept: bool) -> SessionState {
    match state {
        SessionState::Disconnected => SessionState::Disconnected,
        SessionState::Ready => if boundary_kept {
            SessionState::Ready
        } else {
            SessionState::Closed
        },
        _ => SessionState::Closed,
    }
}

/// Gives the state of a session after something could not be decoded.
pub fn survive_decode_failure(state: SessionState, boundary_kept: bool) -> (r: SessionState)
    ensures
        r == after_decode_failure(state, boundary_kept),
{
    match state {
        SessionState::Disconnected => SessionState::Disconnected,
        SessionState::Ready => if boundary_kept {
            SessionState::Ready
        } else {
            SessionState::Closed
        },
        _ => SessionState::Closed,
    }
}

/// The state that follows `state` on `event`, and what to do then.
pub open spec fn next(state: SessionState, event: Event) -> (SessionState, Action) {
    match event {
        Event::IoFailed => (SessionState::Closed, Action::Fail(Error::Transport)),
        Event::DecodeFailed { context, boundary_kept } => (
            after_decode_failure(state, boundary_kept),
            Action::Fail(Error::Decode(context)),
        ),
        Event::Opened => match state {
            SessionState::Disconnected => (SessionState::Starting, Action::SendStartup),
            _ => (state, Action::Fail(Error::ProtocolState)),
        },
        Event::Requested => match state {
            SessionState::Ready => (SessionState::Ready, Action::SendRequest),
            _ => (state, Action::Fail(Error::ProtocolState)),
        },
        Event::Received(opcode) => match state {
            SessionState::Starting => match opcode {
                Opcode::Ready => (SessionState::Ready, Action::ReportReady),
                Opcode::Authenticate => (SessionState::Authenticating, Action::SendFirstToken),
                Opcode::Error => (SessionState::Closed, Action::Fail(Error::Server)),
                _ => (SessionState::Closed, Action::Fail(Error::ProtocolState)),
            },
            SessionState::Authenticating => match opcode {
                Opcode::AuthChallenge => (SessionState::Authenticating, Action::AnswerChallenge),
                Opcode::AuthSuccess => (SessionState::Ready, Action::ReportReady),
                Opcode::Error => (SessionState::Closed, Action::Fail(Error::Server)),
                _ => (SessionState::Closed, Action::Fail(Error::ProtocolState)),
            },
            SessionState::Ready => match opcode {
                Opcode::Error => (SessionState::Ready, Action::Fail(Error::Server)),
                Opcode::Event => (SessionState::Ready, Action::Notify),
                Opcode::Result | Opcode::Supported | Opcode::Ready => (
                    SessionState::Ready,
                    Action::Deliver,
                ),
                _ => (SessionState::Ready, Action::Fail(Error::ProtocolState)),
            },
            _ => (state, Action::Fail(Error::ProtocolState)),
        },
    }
}

/// Moves a session from `state` on `event`.
pub fn step(state: SessionState, event: Event) -> (r: (SessionState, Action))
    ensures
        r == next(state, event),
{
    match event {
        Event::IoFailed => (SessionState::Closed, Action::Fail(Error::Transport)),
        Event::DecodeFailed { context, boundary_kept } => (
            survive_decode_failure(state, boundary_kept),
            Action::Fail(Error::Decode(context)),
        ),
        Event::Opened => match state {
            SessionState::Disconnected => (SessionState::Starting, Action::SendStartup),
            _ => (state, Action::Fail(Error::ProtocolState)),
        },
        Event::Requested => match state {
            SessionState::Ready => (SessionState::Ready, Action::SendRequest),
            _ => (state, Action::Fail(Error::ProtocolState)),
        },
        Event::Received(opcode) => match state {
            SessionState::Starting => match opcode {
                Opcode::Ready => (SessionState::Ready, Action::ReportReady),
                Opcode::Authenticate => (SessionState::Authenticating, Action::SendFirstToken),
                Opcode::Error => (SessionState::Closed, Action::Fail(Error::Server)),
                _ => (SessionState::Closed, Action::Fail(Error::ProtocolState)),
            },
            SessionState::Authenticating => match opcode {
                Opcode::AuthChallenge => (SessionState::Authenticating, Action::AnswerChallenge),
                Opcode::AuthSuccess => (SessionState::Ready, Action::ReportReady),
                Opcode::Error => (SessionState::Closed, Action::Fail(Error::Server)),
                _ => (SessionState::Closed, Action::Fail(Error::ProtocolState)),
            },
            SessionState::Ready => match opcode {
                Opcode::Error => (SessionState::Ready, Action::Fail(Error::Server)),
                Opcode::Event => (SessionState::Ready, Action::Notify),
                Opcode::Result | Opcode::Supported | Opcode::Ready => (
                    SessionState::Ready,
                    Action::Deliver,
                ),
                _ => (SessionState::Ready, Action::Fail(Error::ProtocolState)),
            },
            _ => (state, Action::Fail(Error::ProtocolState)),
        },
    }
}

/// A closed session stays closed, whatever happens, and does nothing more.
pub proof fn lemma_closed_is_final(event: Event)
    ensures
        next(SessionState::Closed, event).0 == SessionState::Closed,
        next(SessionState::Closed, event).1 is Fail,
{
}

/// A failure of the transport closes the session, whatever its state.
pub proof fn lemma_io_failure_closes(state: SessionState)
    ensures
        next(state, Event::IoFailed) == (SessionState::Closed, Action::Fail(Error::Transport)),
{
}

/// Once the end of a frame is lost, a session that has a transport is closed, whatever
/// its state; and a failure to decode never opens a session or makes it ready.
pub proof fn lemma_lost_boundary_closes(state: SessionState, context: Context, boundary_kept: bool)
    ensures
        state != SessionState::Disconnected ==> next(
            state,
            Event::DecodeFailed { context, boundary_kept: false },
        ).0 == SessionState::Closed,
        next(state, Event::DecodeFailed { context, boundary_kept }).1 == Action::Fail(
            Error::Decode(context),
        ),
        next(state, Event::DecodeFailed { context, boundary_kept }).0 == SessionState::Ready
            ==> state == SessionState::Ready && boundary_kept,
{
}

/// A request is sent in the state `Ready` and in no other, and leaves the session
/// in that state.
pub proof fn lemma_requests_need_ready(state: SessionState)
    ensures
        next(state, Event::Requested).1 == Action::SendRequest <==> state == SessionState::Ready,
        next(state, Event::Requested).0 == state,
{
}

/// A session becomes ready only from `Starting`, on READY, or from `Authenticating`,
/// on AUTH_SUCCESS.
pub proof fn lemma_ready_is_earned(state: SessionState, event: Event)
    requires
        state != SessionState::Ready,
        next(state, event).0 == SessionState::Ready,
    ensures
        state == SessionState::Starting && event == Event::Received(Opcode::Ready) || state
            == SessionState::Authenticating && event == Event::Received(Opcode::AuthSuccess),
{
}

/// The flag byte of a frame to send: the compression flag is set on every frame but
/// a STARTUP, where a compression was agreed on.
pub open spec fn outbound_flag(compression: Compression, opcode: Opcode) -> Flag {
    if compression != Compression::Off && opcode != Opcode::Startup {
        Flag::Compression
    } else {
        Flag::Ignore
    }
}

/// Tells which flag a frame to send carries, and with it whether its body is to be
/// compressed.
pub fn outbound(compression: Compression, opcode: Opcode) -> (r: Flag)
    ensures
        r == outbound_flag(compression, opcode),
{
    if compression != Compression::Off && opcode != Opcode::Startup {
        Flag::Compression
    } else {
        Flag::Ignore
    }
}

/// Tells whether the body of a frame that came in is compressed.
pub fn inbound_compressed(frame: &Frame) -> (r: bool)
    ensures
        r == frame.flag_set(Flag::Compression),
{
    frame.has_flag(Flag::Compression)
}

/// The token of the password authenticator: a zero byte, the user, a zero byte, and
/// the password, both in UTF-8.
pub open spec fn password_wire(user: Seq<char>, password: Seq<char>) -> Seq<u8> {
    seq![0u8] + encode_utf8(user) + seq![0u8] + encode_utf8(password)
}

/// The token that the password authenticator answers with.
pub fn password_token(user: &str, password: &str) -> (r: Vec<u8>)
    ensures
        r@ == password_wire(user@, password@),
{
    let mut out: Vec<u8> = Vec::new();
    out.push(0u8);
    append(&mut out, user.as_bytes());
    out.push(0u8);
    append(&mut out, password.as_bytes());
    assert(out@ =~= password_wire(user@, password@));
    out
}

} // verus!
