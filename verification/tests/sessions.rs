use cdrs::error::{Context, Error};
use cdrs::frame::{Flag, Frame, Opcode, Version};
use cdrs::request::Compression;
use cdrs::session::{
    inbound_compressed, outbound, password_token, step, Action, Event, SessionState,
};

const STATES: [SessionState; 5] = [
    SessionState::Disconnected,
    SessionState::Starting,
    SessionState::Authenticating,
    SessionState::Ready,
    SessionState::Closed,
];

const OPCODES: [Opcode; 16] = [
    Opcode::Error,
    Opcode::Startup,
    Opcode::Ready,
    Opcode::Authenticate,
    Opcode::Options,
    Opcode::Supported,
    Opcode::Query,
    Opcode::Result,
    Opcode::Prepare,
    Opcode::Execute,
    Opcode::Register,
    Opcode::Event,
    Opcode::Batch,
    Opcode::AuthChallenge,
    Opcode::AuthResponse,
    Opcode::AuthSuccess,
];

#[test]
fn handshake_without_authentication() {
    let (s, a) = step(SessionState::Disconnected, Event::Opened);
    assert_eq!((s, a), (SessionState::Starting, Action::SendStartup));
    let (s, a) = step(s, Event::Received(Opcode::Ready));
    assert_eq!((s, a), (SessionState::Ready, Action::ReportReady));
    let (s, a) = step(s, Event::Requested);
    assert_eq!((s, a), (SessionState::Ready, Action::SendRequest));
    let (s, a) = step(s, Event::Received(Opcode::Result));
    assert_eq!((s, a), (SessionState::Ready, Action::Deliver));
}

#[test]
fn handshake_with_challenges() {
    let (s, a) = step(SessionState::Starting, Event::Received(Opcode::Authenticate));
    assert_eq!((s, a), (SessionState::Authenticating, Action::SendFirstToken));
    let (s, a) = step(s, Event::Received(Opcode::AuthChallenge));
    assert_eq!((s, a), (SessionState::Authenticating, Action::AnswerChallenge));
    let (s, a) = step(s, Event::Received(Opcode::AuthChallenge));
    assert_eq!((s, a), (SessionState::Authenticating, Action::AnswerChallenge));
    let (s, a) = step(s, Event::Received(Opcode::AuthSuccess));
    assert_eq!((s, a), (SessionState::Ready, Action::ReportReady));
}

#[test]
fn error_during_the_handshake_is_fatal() {
    for state in [SessionState::Starting, SessionState::Authenticating] {
        assert_eq!(
            step(state, Event::Received(Opcode::Error)),
            (SessionState::Closed, Action::Fail(Error::Server))
        );
    }
}

#[test]
fn error_when_ready_is_reported_and_survived() {
    assert_eq!(
        step(SessionState::Ready, Event::Received(Opcode::Error)),
        (SessionState::Ready, Action::Fail(Error::Server))
    );
}

#[test]
fn answers_are_delivered_when_ready() {
    for opcode in [Opcode::Result, Opcode::Supported, Opcode::Ready] {
        assert_eq!(
            step(SessionState::Ready, Event::Received(opcode)),
            (SessionState::Ready, Action::Deliver)
        );
    }
    assert_eq!(
        step(SessionState::Ready, Event::Received(Opcode::Authenticate)),
        (SessionState::Ready, Action::Fail(Error::ProtocolState))
    );
}

#[test]
fn event_is_handed_to_the_listener() {
    assert_eq!(
        step(SessionState::Ready, Event::Received(Opcode::Event)),
        (SessionState::Ready, Action::Notify)
    );
}

#[test]
fn io_failure_closes_from_every_state() {
    for state in STATES {
        assert_eq!(
            step(state, Event::IoFailed),
            (SessionState::Closed, Action::Fail(Error::Transport))
        );
    }
}

#[test]
fn requests_are_legal_only_when_ready() {
    for state in STATES {
        let (next, action) = step(state, Event::Requested);
        assert_eq!(next, state);
        if state == SessionState::Ready {
            assert_eq!(action, Action::SendRequest);
        } else {
            assert_eq!(action, Action::Fail(Error::ProtocolState));
        }
    }
}

#[test]
fn opening_twice_is_illegal() {
    for state in STATES {
        if state != SessionState::Disconnected {
            assert_eq!(step(state, Event::Opened), (state, Action::Fail(Error::ProtocolState)));
        }
    }
}

#[test]
fn closed_is_final() {
    for opcode in OPCODES {
        assert_eq!(
            step(SessionState::Closed, Event::Received(opcode)),
            (SessionState::Closed, Action::Fail(Error::ProtocolState))
        );
    }
}

#[test]
fn unexpected_frames_during_the_handshake_close_the_session() {
    assert_eq!(
        step(SessionState::Starting, Event::Received(Opcode::Result)),
        (SessionState::Closed, Action::Fail(Error::ProtocolState))
    );
    assert_eq!(
        step(SessionState::Authenticating, Event::Received(Opcode::Ready)),
        (SessionState::Closed, Action::Fail(Error::ProtocolState))
    );
    assert_eq!(
        step(SessionState::Disconnected, Event::Received(Opcode::Ready)),
        (SessionState::Disconnected, Action::Fail(Error::ProtocolState))
    );
}

#[test]
fn ready_is_reached_in_two_ways_only() {
    for state in STATES {
        if state == SessionState::Ready {
            continue;
        }
        for opcode in OPCODES {
            let (next, _) = step(state, Event::Received(opcode));
            let earned = (state == SessionState::Starting && opcode == Opcode::Ready)
                || (state == SessionState::Authenticating && opcode == Opcode::AuthSuccess);
            assert_eq!(next == SessionState::Ready, earned);
        }
    }
}

#[test]
fn compression_flag_on_all_but_startup() {
    assert_eq!(outbound(Compression::Lz4, Opcode::Query), Flag::Compression);
    assert_eq!(outbound(Compression::Snappy, Opcode::Options), Flag::Compression);
    assert_eq!(outbound(Compression::Lz4, Opcode::Startup), Flag::Ignore);
    assert_eq!(outbound(Compression::Off, Opcode::Query), Flag::Ignore);
    assert_eq!(outbound(Compression::Off, Opcode::Startup), Flag::Ignore);
}

#[test]
fn inbound_compression_goes_by_the_flag() {
    let frame = |flags: u8| Frame {
        version: Version::Response,
        flags,
        opcode: Opcode::Result,
        stream: 0,
        body: vec![],
    };
    assert!(inbound_compressed(&frame(0x01)));
    assert!(inbound_compressed(&frame(0x03)));
    assert!(!inbound_compressed(&frame(0x02)));
    assert!(!inbound_compressed(&frame(0x00)));
}

#[test]
fn password_token_layout() {
    assert_eq!(
        password_token("cassandra", "pw"),
        [&[0u8][..], b"cassandra", &[0u8][..], b"pw"].concat()
    );
    assert_eq!(password_token("", ""), vec![0, 0]);
    assert_eq!(password_token("é", "x"), vec![0, 0xc3, 0xa9, 0, b'x']);
}

#[test]
fn lost_frame_boundary_closes_the_session() {
    let lost = Event::DecodeFailed { context: Context::Header, boundary_kept: false };
    for state in [SessionState::Starting, SessionState::Authenticating, SessionState::Ready] {
        assert_eq!(
            step(state, lost),
            (SessionState::Closed, Action::Fail(Error::Decode(Context::Header)))
        );
    }
    assert_eq!(step(SessionState::Closed, lost).0, SessionState::Closed);
    assert_eq!(step(SessionState::Disconnected, lost).0, SessionState::Disconnected);
}

#[test]
fn decode_failure_inside_a_frame_leaves_a_ready_session_ready() {
    let kept = Event::DecodeFailed { context: Context::Utf8, boundary_kept: true };
    assert_eq!(
        step(SessionState::Ready, kept),
        (SessionState::Ready, Action::Fail(Error::Decode(Context::Utf8)))
    );
    for state in [SessionState::Starting, SessionState::Authenticating] {
        assert_eq!(
            step(state, kept),
            (SessionState::Closed, Action::Fail(Error::Decode(Context::Utf8)))
        );
    }
}
