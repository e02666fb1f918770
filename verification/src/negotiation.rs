//! The version handshake that opens a relay session.

use vstd::prelude::*;
use crate::control::{ControlMessage, ControlMessageView};

verus! {

/// The one protocol version this negotiator accepts.
pub const PROTOCOL_VERSION_1: u8 = 1;

/// Where a handshake stands.
#[derive(Debug, Clone, Copy, PartialEq, Eq, Structural)]
pub enum HandshakeState {
    WaitingForHello,
    Negotiated,
    Failed,
}

/// Why a `Hello` was refused.
#[derive(Debug, Clone, Copy, PartialEq, Eq, Structural)]
pub enum HandshakeError {
    /// A `Hello` arrived after the handshake had completed or failed.
    AlreadyCompleted,
    /// The peer speaks a version this side does not.
    UnsupportedVersion,
}

/// Whether `version` is one this side speaks.
pub open spec fn spec_version_supported(version: u8) -> bool {
    version == PROTOCOL_VERSION_1
}

/// The handshake of one session.
pub struct ProtocolNegotiator {
    state: HandshakeState,
    negotiated_version: Option<u8>,
    peer_capabilities: Option<u32>,
}

/// A negotiator as a mathematical value.
pub struct NegotiatorView {
    pub state: HandshakeState,
    pub negotiated_version: Option<u8>,
    pub peer_capabilities: Option<u32>,
}

impl View for ProtocolNegotiator {
    type V = NegotiatorView;

    closed spec fn view(&self) -> NegotiatorView {
        NegotiatorView {
            state: self.state,
            negotiated_version: self.negotiated_version,
            peer_capabilities: self.peer_capabilities,
        }
    }
}

impl ProtocolNegotiator {
    /// A negotiator that waits for the peer's `Hello`.
    pub fn new() -> (n: ProtocolNegotiator)
        ensures
            n@ == (NegotiatorView {
                state: HandshakeState::WaitingForHello,
                negotiated_version: None,
                peer_capabilities: None,
            }),
    {
        ProtocolNegotiator {
            state: HandshakeState::WaitingForHello,
            negotiated_version: None,
            peer_capabilities: None,
        }
    }

    /// Handles the peer's `Hello`.
    ///
    /// While waiting, a supported version completes the handshake and is
    /// answered with a `Hello` of the same version and no capability flags; an
    /// unsupported one fails the handshake. In any other state the call is
    /// refused and changes nothing.
    pub fn process_hello(&mut self, version: u8, capability_flags: u32) -> (r: Result<
        ControlMessage,
        HandshakeError,
    >)
        ensures
            old(self)@.state != HandshakeState::WaitingForHello ==> r is Err && r->Err_0
                == HandshakeError::AlreadyCompleted && final(self)@ == old(self)@,
            old(self)@.state == HandshakeState::WaitingForHello && !spec_version_supported(version)
                ==> r is Err && r->Err_0 == HandshakeError::UnsupportedVersion && final(self)@ == (
                NegotiatorView { state: HandshakeState::Failed, ..old(self)@ }),
            old(self)@.state == HandshakeState::WaitingForHello && spec_version_supported(version)
                ==> r is Ok && r->Ok_0@ == (ControlMessageView::Hello {
                version,
                capability_flags: 0,
            }) && final(self)@ == (NegotiatorView {
                state: HandshakeState::Negotiated,
                negotiated_version: Some(version),
                peer_capabilities: Some(capability_flags),
            }),
    {
        if self.state != HandshakeState::WaitingForHello {
            return Err(HandshakeError::AlreadyCompleted);
        }
        if version != PROTOCOL_VERSION_1 {
            self.state = HandshakeState::Failed;
            return Err(HandshakeError::UnsupportedVersion);
        }
        self.negotiated_version = Some(version);
        self.peer_capabilities = Some(capability_flags);
        self.state = HandshakeState::Negotiated;
        Ok(ControlMessage::Hello { version, capability_flags: 0 })
    }

    /// Whether the handshake has completed.
    pub fn is_negotiated(&self) -> (b: bool)
        ensures
            b == (self@.state == HandshakeState::Negotiated),
    {
        self.state == HandshakeState::Negotiated
    }

    /// The version agreed on, once the handshake has completed.
    pub fn negotiated_version(&self) -> (v: Option<u8>)
        ensures
            v == self@.negotiated_version,
    {
        self.negotiated_version
    }

    /// The capability flags the peer sent, once the handshake has completed.
    pub fn peer_capabilities(&self) -> (c: Option<u32>)
        ensures
            c == self@.peer_capabilities,
    {
        self.peer_capabilities
    }
}

} // verus!
