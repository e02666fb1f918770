//! What the core may not do, said by what is missing: types without the
//! constructors and accessors that would let sensitive data out.

use vstd::prelude::*;
use crate::trust_boundaries::{DestinationHostname, SourceIp};

verus! {

/// A name could not be resolved.
#[derive(Debug)]
pub struct DnsError;

/// Source and destination of a connection together. Nothing outside this
/// module can make or read one.
pub struct NetworkMetadata {
    source_ip: SourceIp,
    destination: DestinationHostname,
}

/// Access to raw sockets: a capability without operations.
pub trait RawSocketAccess {

}

/// A message that travels upstream: encrypted bytes and nothing else.
pub struct UpstreamMessage {
    encrypted_data: Vec<u8>,
}

impl UpstreamMessage {
    /// The encrypted bytes of the message.
    pub closed spec fn spec_data(&self) -> Seq<u8> {
        self.encrypted_data@
    }

    /// A message that carries `encrypted_data`.
    pub fn new(encrypted_data: Vec<u8>) -> (m: UpstreamMessage)
        ensures
            m.spec_data() == encrypted_data@,
    {
        UpstreamMessage { encrypted_data }
    }
}

/// The isolation of the zones: a type without operations.
pub struct ZoneIsolation;

/// The capability to log. It exists only where it was asked for.
pub struct LoggingCapability {
    enabled: bool,
}

impl LoggingCapability {
    /// Whether logging is switched on.
    pub closed spec fn spec_enabled(&self) -> bool {
        self.enabled
    }

    /// The capability to log, switched on.
    pub fn explicitly_enabled() -> (c: LoggingCapability)
        ensures
            c.spec_enabled(),
    {
        LoggingCapability { enabled: true }
    }

    /// Whether logging is switched on.
    pub fn is_enabled(&self) -> (enabled: bool)
        ensures
            enabled == self.spec_enabled(),
    {
        self.enabled
    }
}

/// Data in the clear. Nothing outside this module can make or read one.
pub struct PlaintextData {
    data: Vec<u8>,
}

/// The correlation of sessions: a type without operations.
pub struct SessionCorrelation;

} // verus!
