//! The data plane of the layered transport: which zone may encrypt, decrypt
//! or forward a payload. The ciphers themselves are placeholders that leave
//! the bytes as they are.

use vstd::prelude::*;
use crate::control_plane::{HopKey, SessionId};
use crate::frame::copy_range;
use crate::trust_boundaries::{PlaintextPayload, TrustZone};

verus! {

/// A payload in encrypted form.
#[derive(Debug, Clone)]
pub struct EncryptedPayload(pub Vec<u8>);

/// The tag that authenticates a payload.
#[derive(Debug, Clone, Copy)]
pub struct AuthenticationTag(pub [u8; 16]);

/// The place of a payload in its stream.
#[derive(Debug, Clone, Copy)]
pub struct SequenceNumber(pub u64);

/// Why the data plane refused an operation.
#[derive(Debug, Clone, Copy, PartialEq, Eq, Structural)]
pub enum DataError {
    InvalidZone,
    PlaintextNotAllowed,
    EncryptionFailed,
    DecryptionFailed,
}

/// What a zone makes of an inbound payload.
#[derive(Debug)]
pub enum ProcessResult {
    /// The payload goes on to the next hop.
    Forward(EncryptedPayload),
    /// The payload has arrived and is delivered in the clear.
    Deliver(PlaintextPayload),
}

/// Whether a zone may encrypt: the local, entry and relay zones.
pub open spec fn spec_may_encrypt(zone: TrustZone) -> bool {
    zone == TrustZone::Local || zone == TrustZone::Entry || zone == TrustZone::Relay
}

/// Whether a zone may take off a hop's layer: the entry, relay and exit
/// zones.
pub open spec fn spec_may_decrypt_hop(zone: TrustZone) -> bool {
    zone == TrustZone::Entry || zone == TrustZone::Relay || zone == TrustZone::Exit
}

/// Whether a zone may forward: the entry and relay zones.
pub open spec fn spec_may_forward(zone: TrustZone) -> bool {
    zone == TrustZone::Entry || zone == TrustZone::Relay
}

/// Encrypts payloads.
pub struct PayloadEncryptor {
    zone: TrustZone,
    hop_keys: Vec<(SessionId, HopKey)>,
}

impl PayloadEncryptor {
    /// The zone of the encryptor.
    pub closed spec fn spec_zone(&self) -> TrustZone {
        self.zone
    }

    /// An encryptor in `zone`.
    pub fn new(zone: TrustZone) -> (e: PayloadEncryptor)
        ensures
            e.spec_zone() == zone,
    {
        PayloadEncryptor { zone, hop_keys: Vec::new() }
    }

    /// Encrypts `plaintext` for a session. Zones that may not encrypt are
    /// refused with `InvalidZone`.
    pub fn encrypt_payload(&self, session_id: &SessionId, plaintext: &[u8]) -> (r: Result<
        EncryptedPayload,
        DataError,
    >)
        ensures
            spec_may_encrypt(self.spec_zone()) ==> r is Ok && r->Ok_0.0@ == plaintext@,
            !spec_may_encrypt(self.spec_zone()) ==> r is Err && r->Err_0 == DataError::InvalidZone,
    {
        match self.zone {
            TrustZone::Local | TrustZone::Entry | TrustZone::Relay => {
                let bytes = copy_range(plaintext, 0, plaintext.len());
                assert(bytes@ =~= plaintext@);
                Ok(EncryptedPayload(bytes))
            },
            _ => Err(DataError::InvalidZone),
        }
    }
}

/// Decrypts payloads.
pub struct PayloadDecryptor {
    zone: TrustZone,
    hop_keys: Vec<(SessionId, HopKey)>,
}

impl PayloadDecryptor {
    /// The zone of the decryptor.
    pub closed spec fn spec_zone(&self) -> TrustZone {
        self.zone
    }

    /// A decryptor in `zone`.
    pub fn new(zone: TrustZone) -> (d: PayloadDecryptor)
        ensures
            d.spec_zone() == zone,
    {
        PayloadDecryptor { zone, hop_keys: Vec::new() }
    }

    /// Takes this hop's layer off `encrypted`. Zones that may not are
    /// refused with `InvalidZone`.
    pub fn decrypt_hop_payload(&self, session_id: &SessionId, encrypted: &EncryptedPayload) -> (r:
        Result<Vec<u8>, DataError>)
        ensures
            spec_may_decrypt_hop(self.spec_zone()) ==> r is Ok && r->Ok_0@ == encrypted.0@,
            !spec_may_decrypt_hop(self.spec_zone()) ==> r is Err && r->Err_0
                == DataError::InvalidZone,
    {
        match self.zone {
            TrustZone::Entry | TrustZone::Relay | TrustZone::Exit => {
                let bytes = copy_range(encrypted.0.as_slice(), 0, encrypted.0.len());
                assert(bytes@ =~= encrypted.0@);
                Ok(bytes)
            },
            _ => Err(DataError::InvalidZone),
        }
    }

    /// Decrypts `encrypted` to the clear. Only the exit zone may; the others
    /// are refused with `PlaintextNotAllowed`.
    pub fn decrypt_to_plaintext(&self, session_id: &SessionId, encrypted: &EncryptedPayload) -> (r:
        Result<PlaintextPayload, DataError>)
        ensures
            self.spec_zone() == TrustZone::Exit ==> r is Ok && r->Ok_0.0@ == encrypted.0@,
            self.spec_zone() != TrustZone::Exit ==> r is Err && r->Err_0
                == DataError::PlaintextNotAllowed,
    {
        match self.zone {
            TrustZone::Exit => {
                let bytes = copy_range(encrypted.0.as_slice(), 0, encrypted.0.len());
                assert(bytes@ =~= encrypted.0@);
                Ok(PlaintextPayload(bytes))
            },
            _ => Err(DataError::PlaintextNotAllowed),
        }
    }
}

/// Forwards payloads to the next hop.
pub struct HopForwarder {
    zone: TrustZone,
}

impl HopForwarder {
    /// The zone of the forwarder.
    pub closed spec fn spec_zone(&self) -> TrustZone {
        self.zone
    }

    /// A forwarder in `zone`.
    pub fn new(zone: TrustZone) -> (f: HopForwarder)
        ensures
            f.spec_zone() == zone,
    {
        HopForwarder { zone }
    }

    /// Hands `encrypted` on to the next hop. Zones that may not forward are
    /// refused with `InvalidZone`.
    pub fn forward_to_next_hop(&self, encrypted: EncryptedPayload) -> (r: Result<
        EncryptedPayload,
        DataError,
    >)
        ensures
            spec_may_forward(self.spec_zone()) ==> r is Ok && r->Ok_0 == encrypted,
            !spec_may_forward(self.spec_zone()) ==> r is Err && r->Err_0 == DataError::InvalidZone,
    {
        match self.zone {
            TrustZone::Entry | TrustZone::Relay => Ok(encrypted),
            _ => Err(DataError::InvalidZone),
        }
    }
}

/// The data plane of one zone.
pub struct TunnelManager {
    zone: TrustZone,
    encryptor: PayloadEncryptor,
    decryptor: PayloadDecryptor,
    forwarder: HopForwarder,
}

impl TunnelManager {
    /// The zone of the manager.
    pub closed spec fn spec_zone(&self) -> TrustZone {
        self.zone
    }

    /// The invariant of the manager: its parts are in its zone.
    pub closed spec fn wf(&self) -> bool {
        &&& self.encryptor.spec_zone() == self.zone
        &&& self.decryptor.spec_zone() == self.zone
        &&& self.forwarder.spec_zone() == self.zone
    }

    /// A manager in `zone`.
    pub fn new(zone: TrustZone) -> (m: TunnelManager)
        ensures
            m.wf(),
            m.spec_zone() == zone,
    {
        TunnelManager {
            zone,
            encryptor: PayloadEncryptor::new(zone),
            decryptor: PayloadDecryptor::new(zone),
            forwarder: HopForwarder::new(zone),
        }
    }

    /// The encryptor of the manager.
    pub fn encryptor(&self) -> (e: &PayloadEncryptor)
        requires
            self.wf(),
        ensures
            e.spec_zone() == self.spec_zone(),
    {
        &self.encryptor
    }

    /// Handles an inbound payload: the entry and relay zones take their
    /// layer off, put the next one on and forward; the exit zone delivers in
    /// the clear; the local zone and the outside are refused with
    /// `InvalidZone`.
    pub fn process_inbound(&self, session_id: &SessionId, encrypted: EncryptedPayload) -> (r:
        Result<ProcessResult, DataError>)
        requires
            self.wf(),
        ensures
            spec_may_forward(self.spec_zone()) ==> r is Ok && r->Ok_0 is Forward
                && r->Ok_0->Forward_0.0@ == encrypted.0@,
            self.spec_zone() == TrustZone::Exit ==> r is Ok && r->Ok_0 is Deliver
                && r->Ok_0->Deliver_0.0@ == encrypted.0@,
            self.spec_zone() == TrustZone::Local || self.spec_zone() == TrustZone::External ==> r
                is Err && r->Err_0 == DataError::InvalidZone,
    {
        match self.zone {
            TrustZone::Entry | TrustZone::Relay => {
                let decrypted = match self.decryptor.decrypt_hop_payload(session_id, &encrypted) {
                    Ok(d) => d,
                    Err(e) => {
                        return Err(e);
                    },
                };
                let re_encrypted = match self.encryptor.encrypt_payload(
                    session_id,
                    decrypted.as_slice(),
                ) {
                    Ok(p) => p,
                    Err(e) => {
                        return Err(e);
                    },
                };
                match self.forwarder.forward_to_next_hop(re_encrypted) {
                    Ok(forwarded) => Ok(ProcessResult::Forward(forwarded)),
                    Err(e) => Err(e),
                }
            },
            TrustZone::Exit => {
                match self.decryptor.decrypt_to_plaintext(session_id, &encrypted) {
                    Ok(plaintext) => Ok(ProcessResult::Deliver(plaintext)),
                    Err(e) => Err(e),
                }
            },
            _ => Err(DataError::InvalidZone),
        }
    }
}

/// The name resolver of the exit zone. Resolving itself is done by the
/// surrounding program; this type says where it may be done.
pub struct ExitZoneDnsResolver {
    zone: TrustZone,
}

impl ExitZoneDnsResolver {
    /// The zone of the resolver.
    pub closed spec fn spec_zone(&self) -> TrustZone {
        self.zone
    }

    /// A resolver in the exit zone.
    pub fn new() -> (r: Result<ExitZoneDnsResolver, DataError>)
        ensures
            r is Ok,
            r->Ok_0.spec_zone() == TrustZone::Exit,
    {
        Ok(ExitZoneDnsResolver { zone: TrustZone::Exit })
    }

    /// Whether the resolver may resolve names: only in the exit zone.
    pub fn may_resolve(&self) -> (may: bool)
        ensures
            may == (self.spec_zone() == TrustZone::Exit),
    {
        self.zone == TrustZone::Exit
    }
}

} // verus!
