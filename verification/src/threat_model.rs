//! The threat model: who observes the system, and how a leak is classed.

use vstd::prelude::*;

verus! {

/// The development phase the threat model describes.
pub const PHASE: u8 = 4;

/// Whether the destination address is visible to observers on the network.
pub const DESTINATION_IP_VISIBLE: bool = true;

/// Whether the server name of a TLS handshake is visible.
pub const SNI_VISIBLE: bool = true;

/// Whether name resolution may leak.
pub const DNS_METADATA_VISIBLE: bool = true;

/// Whether the timing of connections is visible.
pub const TIMING_VISIBLE: bool = true;

/// Whether the payload is visible to intermediaries.
pub const PAYLOAD_VISIBLE: bool = false;

/// Who can observe the system.
#[derive(Debug, Clone, Copy, PartialEq, Eq, Structural)]
pub enum Observer {
    LocalHost,
    Browser,
    Proxy,
    ISP,
    Transit,
    Destination,
    GlobalObserver,
}

/// How a leak is classed.
#[derive(Debug, Clone, Copy, PartialEq, Eq, Structural)]
pub enum LeakStatus {
    /// By design, and documented.
    Intentional,
    /// Unavoidable in the given architecture.
    Inherent,
    /// Must not occur.
    Forbidden,
}

/// Types that never inspect a TLS payload.
pub trait NoTlsInspection {

}

/// Types that never parse HTTP behind a CONNECT.
pub trait NoHttpParsing {

}

/// Types that never log the name of a destination.
pub trait NoDestinationLogging {

}

/// Whether a feature of phase `needed` may be used in the phase of this
/// threat model.
pub fn phase_allows(needed: u8) -> (allowed: bool)
    ensures
        allowed == (needed <= PHASE),
{
    needed <= PHASE
}

} // verus!
