//! What each zone offers to the layered transport, and what each zone sees.

use vstd::prelude::*;
use crate::control_plane::{random, spec_zero_key, EncryptedRoute, SessionId};
use crate::data_plane::{EncryptedPayload, ExitZoneDnsResolver, ProcessResult, TunnelManager};
use crate::key_management::SecureKeyStorage;
use crate::trust_boundaries::{DestinationHostname, PlaintextPayload, TrustZone};

verus! {

/// Why a zone refused or failed an operation.
#[derive(Debug, Clone, Copy, PartialEq, Eq, Structural)]
pub enum ZoneError {
    SessionInitFailed,
    KeyExchangeFailed,
    EncryptionFailed,
    ForwardingFailed,
    RelayFailed,
    TerminationFailed,
    DnsResolverFailed,
    DnsResolutionFailed,
}

/// The local zone: the user's machine.
pub struct LocalZoneInterface {
    tunnel_manager: TunnelManager,
    key_storage: SecureKeyStorage,
}

impl LocalZoneInterface {
    /// The invariant of the interface: its parts are in the local zone.
    pub closed spec fn wf(&self) -> bool {
        self.tunnel_manager.wf() && self.tunnel_manager.spec_zone() == TrustZone::Local
    }

    /// The interface of the local zone.
    pub fn new() -> (z: LocalZoneInterface)
        ensures
            z.wf(),
    {
        LocalZoneInterface {
            tunnel_manager: TunnelManager::new(TrustZone::Local),
            key_storage: SecureKeyStorage::new(TrustZone::Local),
        }
    }

    /// Starts a tunnel to `destination` over `route` and names its session.
    /// The name comes from the placeholder generator, so it is thirty-two
    /// zero bytes whatever the destination and the route; the interface
    /// itself keeps no record of the tunnel.
    pub fn initiate_tunnel(&mut self, destination: DestinationHostname, route: EncryptedRoute) -> (r:
        Result<SessionId, ZoneError>)
        requires
            old(self).wf(),
        ensures
            final(self).wf(),
            *final(self) == *old(self),
            r is Ok,
            r->Ok_0.0@ == spec_zero_key(),
    {
        Ok(SessionId(random()))
    }

    /// Encrypts `plaintext` for the tunnel. The bytes that come back are
    /// those of the placeholder cipher: the plaintext.
    pub fn send_data(&self, session_id: &SessionId, plaintext: PlaintextPayload) -> (r: Result<
        EncryptedPayload,
        ZoneError,
    >)
        requires
            self.wf(),
        ensures
            r is Ok,
            r->Ok_0.0@ == plaintext.0@,
    {
        match self.tunnel_manager.encryptor().encrypt_payload(session_id, plaintext.0.as_slice()) {
            Ok(encrypted) => Ok(encrypted),
            Err(_) => Err(ZoneError::EncryptionFailed),
        }
    }

    /// The local zone sees where a connection comes from.
    pub fn has_source_ip(&self) -> (b: bool)
        ensures
            b,
    {
        true
    }

    /// The local zone sees where a connection goes.
    pub fn has_destination_hostname(&self) -> (b: bool)
        ensures
            b,
    {
        true
    }
}

/// The entry zone: the first relay.
pub struct EntryZoneInterface {
    tunnel_manager: TunnelManager,
    key_storage: SecureKeyStorage,
}

impl EntryZoneInterface {
    /// The invariant of the interface: its parts are in the entry zone.
    pub closed spec fn wf(&self) -> bool {
        self.tunnel_manager.wf() && self.tunnel_manager.spec_zone() == TrustZone::Entry
    }

    /// The interface of the entry zone.
    pub fn new() -> (z: EntryZoneInterface)
        ensures
            z.wf(),
    {
        EntryZoneInterface {
            tunnel_manager: TunnelManager::new(TrustZone::Entry),
            key_storage: SecureKeyStorage::new(TrustZone::Entry),
        }
    }

    /// Takes note of a new session.
    pub fn process_session_init(&mut self, session_id: SessionId, encrypted_key: Vec<u8>) -> (r:
        Result<(), ZoneError>)
        requires
            old(self).wf(),
        ensures
            final(self).wf(),
            r is Ok,
    {
        Ok(())
    }

    /// Forwards a payload to the next hop.
    pub fn forward_payload(&self, session_id: &SessionId, encrypted: EncryptedPayload) -> (r:
        Result<EncryptedPayload, ZoneError>)
        requires
            self.wf(),
        ensures
            r is Ok,
            r->Ok_0.0@ == encrypted.0@,
    {
        match self.tunnel_manager.process_inbound(session_id, encrypted) {
            Ok(ProcessResult::Forward(forwarded)) => Ok(forwarded),
            _ => Err(ZoneError::ForwardingFailed),
        }
    }

    /// The entry zone sees where a connection comes from.
    pub fn has_source_ip(&self) -> (b: bool)
        ensures
            b,
    {
        true
    }

    /// The entry zone does not see where a connection goes.
    pub fn has_destination_hostname(&self) -> (b: bool)
        ensures
            !b,
    {
        false
    }
}

/// The relay zone: the relays between entry and exit.
pub struct RelayZoneInterface {
    tunnel_manager: TunnelManager,
    key_storage: SecureKeyStorage,
}

impl RelayZoneInterface {
    /// The invariant of the interface: its parts are in the relay zone.
    pub closed spec fn wf(&self) -> bool {
        self.tunnel_manager.wf() && self.tunnel_manager.spec_zone() == TrustZone::Relay
    }

    /// The interface of the relay zone.
    pub fn new() -> (z: RelayZoneInterface)
        ensures
            z.wf(),
    {
        RelayZoneInterface {
            tunnel_manager: TunnelManager::new(TrustZone::Relay),
            key_storage: SecureKeyStorage::new(TrustZone::Relay),
        }
    }

    /// Relays a payload to the next hop.
    pub fn relay_payload(&self, session_id: &SessionId, encrypted: EncryptedPayload) -> (r: Result<
        EncryptedPayload,
        ZoneError,
    >)
        requires
            self.wf(),
        ensures
            r is Ok,
            r->Ok_0.0@ == encrypted.0@,
    {
        match self.tunnel_manager.process_inbound(session_id, encrypted) {
            Ok(ProcessResult::Forward(forwarded)) => Ok(forwarded),
            _ => Err(ZoneError::RelayFailed),
        }
    }

    /// The relay zone does not see where a connection comes from.
    pub fn has_source_ip(&self) -> (b: bool)
        ensures
            !b,
    {
        false
    }

    /// The relay zone does not see where a connection goes.
    pub fn has_destination_hostname(&self) -> (b: bool)
        ensures
            !b,
    {
        false
    }
}

/// The exit zone: the last relay, which talks to the destination.
pub struct ExitZoneInterface {
    tunnel_manager: TunnelManager,
    key_storage: SecureKeyStorage,
    dns_resolver: ExitZoneDnsResolver,
}

impl ExitZoneInterface {
    /// The invariant of the interface: its parts are in the exit zone.
    pub closed spec fn wf(&self) -> bool {
        &&& self.tunnel_manager.wf()
        &&& self.tunnel_manager.spec_zone() == TrustZone::Exit
        &&& self.dns_resolver.spec_zone() == TrustZone::Exit
    }

    /// The interface of the exit zone.
    pub fn new() -> (r: Result<ExitZoneInterface, ZoneError>)
        ensures
            r is Ok,
            r->Ok_0.wf(),
    {
        let dns_resolver = match ExitZoneDnsResolver::new() {
            Ok(resolver) => resolver,
            Err(_) => {
                return Err(ZoneError::DnsResolverFailed);
            },
        };
        Ok(
            ExitZoneInterface {
                tunnel_manager: TunnelManager::new(TrustZone::Exit),
                key_storage: SecureKeyStorage::new(TrustZone::Exit),
                dns_resolver,
            },
        )
    }

    /// Ends the tunnel for a payload: it is delivered in the clear.
    pub fn terminate_tunnel(&self, session_id: &SessionId, encrypted: EncryptedPayload) -> (r:
        Result<PlaintextPayload, ZoneError>)
        requires
            self.wf(),
        ensures
            r is Ok,
            r->Ok_0.0@ == encrypted.0@,
    {
        match self.tunnel_manager.process_inbound(session_id, encrypted) {
            Ok(ProcessResult::Deliver(plaintext)) => Ok(plaintext),
            _ => Err(ZoneError::TerminationFailed),
        }
    }

    /// Whether names may be resolved here: the exit zone is the one place
    /// where they may.
    pub fn may_resolve_dns(&self) -> (may: bool)
        requires
            self.wf(),
        ensures
            may,
    {
        self.dns_resolver.may_resolve()
    }

    /// The exit zone does not see where a connection comes from.
    pub fn has_source_ip(&self) -> (b: bool)
        ensures
            !b,
    {
        false
    }

    /// The exit zone sees where a connection goes.
    pub fn has_destination_hostname(&self) -> (b: bool)
        ensures
            b,
    {
        true
    }
}

} // verus!
