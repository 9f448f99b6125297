//! The lifecycle of one streaming session, as a state machine. The
//! surrounding server performs the I/O — accepting the upgrade, reading
//! inbound frames, writing outbound frames — and feeds each observation in
//! here; the step function decides what happens, and its contract pins the
//! decisions down: a session registers exactly once, on a successful
//! handshake; a failed handshake abandons only that attempt; either duty
//! ending tears the session down and deregisters it exactly once; a `"ping"`
//! payload is acknowledged and nothing else inbound carries any authority;
//! an event that cannot be encoded is skipped, not fatal.

use vstd::prelude::*;

use crate::encode::{encode_event, spec_encode_event};
use crate::events::BlockchainEvent;
use crate::strings::str_eq;

verus! {

/// Where a session stands.
#[derive(Debug, PartialEq, Eq, Structural)]
pub enum SessionPhase {
    Handshaking,
    Active,
    Ended,
}

/// What the server observed on behalf of a session.
#[derive(Debug)]
pub enum SessionInput {
    HandshakeCompleted,
    HandshakeFailed,
    InboundText(String),
    InboundClosed,
    OutboundEvent(BlockchainEvent),
    EncodeFailed,
    WriteFailed,
}

/// What the server must do next for the session.
#[derive(Debug)]
pub enum SessionAction {
    Register,
    AcknowledgePing,
    SendFrame(String),
    Teardown,
    NoAction,
}

/// One session's state: its phase and whether it stands in the registry.
#[derive(Debug, PartialEq, Eq, Structural)]
pub struct SessionState {
    pub phase: SessionPhase,
    pub registered: bool,
}

impl SessionState {
    /// A session is in the registry exactly while it is active.
    pub open spec fn wf(self) -> bool {
        self.registered <==> self.phase is Active
    }

    /// A fresh session, awaiting its protocol upgrade.
    pub fn begin() -> (r: SessionState)
        ensures
            r.wf(),
            r.phase is Handshaking,
            !r.registered,
    {
        SessionState { phase: SessionPhase::Handshaking, registered: false }
    }
}

/// Advances a session by one observed input and says what to do. The
/// contract is the session's whole protocol:
/// - a completed handshake, and nothing else, asks for registration;
/// - a failed handshake ends only this session, with no registration and no
///   teardown;
/// - inbound text is acknowledged exactly when it is `"ping"` and never
///   changes the phase;
/// - an outbound event is sent as its encoded frame exactly while active; an
///   event whose encoding failed is skipped and the session lives on;
/// - the inbound side closing, or a write failing, ends the session, and the
///   teardown — deregistration — happens exactly on the step that leaves
///   `Active`;
/// - an ended session never acts again.
pub fn session_step(state: SessionState, input: SessionInput) -> (r: (
    SessionState,
    SessionAction,
))
    requires
        state.wf(),
    ensures
        r.0.wf(),
        state.phase is Handshaking ==> match input {
            SessionInput::HandshakeCompleted => r.0.phase is Active && r.1 is Register,
            SessionInput::HandshakeFailed => r.0.phase is Ended && r.1 is NoAction,
            _ => r.0 == state && r.1 is NoAction,
        },
        state.phase is Active ==> match input {
            SessionInput::InboundText(t) => r.0 == state && if t@ == "ping"@ {
                r.1 is AcknowledgePing
            } else {
                r.1 is NoAction
            },
            SessionInput::OutboundEvent(e) => r.0 == state && (r.1 matches
                SessionAction::SendFrame(f) && f@ == spec_encode_event(e)),
            SessionInput::EncodeFailed => r.0 == state && r.1 is NoAction,
            SessionInput::InboundClosed | SessionInput::WriteFailed => r.0.phase is Ended && r.1
                is Teardown,
            _ => r.0 == state && r.1 is NoAction,
        },
        state.phase is Ended ==> r.0 == state && r.1 is NoAction,
        r.1 is Teardown <==> state.phase is Active && r.0.phase is Ended,
        r.1 is Register <==> (state.phase is Handshaking && input is HandshakeCompleted),
{
    match state.phase {
        SessionPhase::Handshaking => match input {
            SessionInput::HandshakeCompleted => (
                SessionState { phase: SessionPhase::Active, registered: true },
                SessionAction::Register,
            ),
            SessionInput::HandshakeFailed => (
                SessionState { phase: SessionPhase::Ended, registered: false },
                SessionAction::NoAction,
            ),
            _ => (state, SessionAction::NoAction),
        },
        SessionPhase::Active => match input {
            SessionInput::InboundText(t) => {
                if str_eq(t.as_str(), "ping") {
                    (state, SessionAction::AcknowledgePing)
                } else {
                    (state, SessionAction::NoAction)
                }
            },
            SessionInput::OutboundEvent(e) => (state, SessionAction::SendFrame(encode_event(&e))),
            SessionInput::EncodeFailed => (state, SessionAction::NoAction),
            SessionInput::InboundClosed | SessionInput::WriteFailed => (
                SessionState { phase: SessionPhase::Ended, registered: false },
                SessionAction::Teardown,
            ),
            _ => (state, SessionAction::NoAction),
        },
        SessionPhase::Ended => (state, SessionAction::NoAction),
    }
}

} // verus!
