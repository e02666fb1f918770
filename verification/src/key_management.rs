//! Key management of the layered transport: which zone may generate, derive,
//! rotate or store which keys. The keys themselves are placeholders.

use vstd::prelude::*;
use crate::control_plane::{random, spec_zero_key, HopKey, PrivateKey, PublicKey, SessionId};
use crate::counters::{bump, spec_bump};
use crate::trust_boundaries::TrustZone;

verus! {

/// Why key management refused an operation.
#[derive(Debug, Clone, Copy, PartialEq, Eq, Structural)]
pub enum KeyError {
    InvalidZone,
    GenerationFailed,
    DerivationFailed,
    StorageFailed,
}

/// The keys of the local zone.
pub struct LocalZoneKeys {
    pub session_private_key: [u8; 32],
    pub all_hop_keys: Vec<[u8; 32]>,
    pub route_encryption_key: [u8; 32],
}

/// The keys of the entry zone.
pub struct EntryZoneKeys {
    pub hop_decryption_key: [u8; 32],
    pub next_hop_encryption_key: [u8; 32],
    pub session_authentication_key: [u8; 32],
}

/// The keys of the relay zone.
pub struct RelayZoneKeys {
    pub previous_hop_decryption_key: [u8; 32],
    pub next_hop_encryption_key: [u8; 32],
    pub layer_authentication_key: [u8; 32],
}

/// The keys of the exit zone.
pub struct ExitZoneKeys {
    pub final_decryption_key: [u8; 32],
    pub dns_encryption_key: [u8; 32],
    pub response_encryption_key: [u8; 32],
}

/// Generates keys that live for one session.
pub struct EphemeralKeyGenerator {
    zone: TrustZone,
}

impl EphemeralKeyGenerator {
    /// The zone of the generator.
    pub closed spec fn spec_zone(&self) -> TrustZone {
        self.zone
    }

    /// A generator in `zone`.
    pub fn new(zone: TrustZone) -> (g: EphemeralKeyGenerator)
        ensures
            g.spec_zone() == zone,
    {
        EphemeralKeyGenerator { zone }
    }

    /// Generates the key pair of a session. Only the local zone may; the
    /// others are refused with `InvalidZone`.
    pub fn generate_session_keypair(&self) -> (r: Result<(PrivateKey, PublicKey), KeyError>)
        ensures
            self.spec_zone() == TrustZone::Local ==> r is Ok && r->Ok_0.0.0@ == spec_zero_key()
                && r->Ok_0.1.0@ == spec_zero_key(),
            self.spec_zone() != TrustZone::Local ==> r is Err && r->Err_0 == KeyError::InvalidZone,
    {
        match self.zone {
            TrustZone::Local => Ok((PrivateKey(random()), PublicKey(random()))),
            _ => Err(KeyError::InvalidZone),
        }
    }

    /// Generates the key of a hop. The entry, relay and exit zones may; the
    /// others are refused with `InvalidZone`.
    pub fn generate_hop_key(&self) -> (r: Result<HopKey, KeyError>)
        ensures
            r is Ok <==> (self.spec_zone() == TrustZone::Entry || self.spec_zone()
                == TrustZone::Relay || self.spec_zone() == TrustZone::Exit),
            r is Ok ==> r->Ok_0.0@ == spec_zero_key(),
            r is Err ==> r->Err_0 == KeyError::InvalidZone,
    {
        match self.zone {
            TrustZone::Entry | TrustZone::Relay | TrustZone::Exit => Ok(HopKey(random())),
            _ => Err(KeyError::InvalidZone),
        }
    }
}

/// Derives the key of the next hop.
pub struct HopKeyDeriver {
    zone: TrustZone,
}

impl HopKeyDeriver {
    /// The zone of the deriver.
    pub closed spec fn spec_zone(&self) -> TrustZone {
        self.zone
    }

    /// A deriver in `zone`.
    pub fn new(zone: TrustZone) -> (d: HopKeyDeriver)
        ensures
            d.spec_zone() == zone,
    {
        HopKeyDeriver { zone }
    }

    /// Derives the key of the next hop from `current_key`. The entry and
    /// relay zones may; the others are refused with `InvalidZone`.
    pub fn derive_next_hop_key(&self, current_key: &HopKey) -> (r: Result<HopKey, KeyError>)
        ensures
            r is Ok <==> (self.spec_zone() == TrustZone::Entry || self.spec_zone()
                == TrustZone::Relay),
            r is Ok ==> r->Ok_0.0@ == spec_zero_key(),
            r is Err ==> r->Err_0 == KeyError::InvalidZone,
    {
        match self.zone {
            TrustZone::Entry | TrustZone::Relay => Ok(HopKey(random())),
            _ => Err(KeyError::InvalidZone),
        }
    }
}

/// Rotates session keys and counts the rotations.
pub struct KeyRotator {
    zone: TrustZone,
    rotation_counter: u64,
}

impl KeyRotator {
    /// The zone of the rotator.
    pub closed spec fn spec_zone(&self) -> TrustZone {
        self.zone
    }

    /// The number of rotations so far.
    pub closed spec fn spec_rotations(&self) -> u64 {
        self.rotation_counter
    }

    /// A rotator in `zone` that has not rotated yet.
    pub fn new(zone: TrustZone) -> (r: KeyRotator)
        ensures
            r.spec_zone() == zone,
            r.spec_rotations() == 0,
    {
        KeyRotator { zone, rotation_counter: 0 }
    }

    /// The number of rotations so far.
    pub fn rotations(&self) -> (n: u64)
        ensures
            n == self.spec_rotations(),
    {
        self.rotation_counter
    }

    /// Rotates the keys of a session and counts the rotation. Every zone of
    /// the system may; the outside is refused with `InvalidZone`.
    pub fn rotate_session_keys(&mut self, session_id: &SessionId) -> (r: Result<(), KeyError>)
        ensures
            final(self).spec_zone() == old(self).spec_zone(),
            old(self).spec_zone() != TrustZone::External ==> r is Ok && final(self).spec_rotations() == spec_bump(old(self).spec_rotations()),
            old(self).spec_zone() == TrustZone::External ==> r == Err::<(), KeyError>(
                KeyError::InvalidZone,
            ) && final(self).spec_rotations() == old(self).spec_rotations(),
    {
        match self.zone {
            TrustZone::Local | TrustZone::Entry | TrustZone::Relay | TrustZone::Exit => {
                self.rotation_counter = bump(self.rotation_counter);
                Ok(())
            },
            _ => Err(KeyError::InvalidZone),
        }
    }
}

/// Stores the keys of one zone, and of no other.
pub struct SecureKeyStorage {
    zone: TrustZone,
    local_keys: Option<LocalZoneKeys>,
    entry_keys: Option<EntryZoneKeys>,
    relay_keys: Option<RelayZoneKeys>,
    exit_keys: Option<ExitZoneKeys>,
}

impl SecureKeyStorage {
    /// The zone of the storage.
    pub closed spec fn spec_zone(&self) -> TrustZone {
        self.zone
    }

    /// The zones whose keys are stored.
    pub closed spec fn spec_holds(&self, zone: TrustZone) -> bool {
        match zone {
            TrustZone::Local => self.local_keys is Some,
            TrustZone::Entry => self.entry_keys is Some,
            TrustZone::Relay => self.relay_keys is Some,
            TrustZone::Exit => self.exit_keys is Some,
            TrustZone::External => false,
        }
    }

    /// An empty storage in `zone`.
    pub fn new(zone: TrustZone) -> (s: SecureKeyStorage)
        ensures
            s.spec_zone() == zone,
            forall|z: TrustZone| !s.spec_holds(z),
    {
        SecureKeyStorage {
            zone,
            local_keys: None,
            entry_keys: None,
            relay_keys: None,
            exit_keys: None,
        }
    }

    /// Whether the keys of `zone` are stored.
    pub fn holds(&self, zone: TrustZone) -> (b: bool)
        ensures
            b == self.spec_holds(zone),
    {
        match zone {
            TrustZone::Local => self.local_keys.is_some(),
            TrustZone::Entry => self.entry_keys.is_some(),
            TrustZone::Relay => self.relay_keys.is_some(),
            TrustZone::Exit => self.exit_keys.is_some(),
            TrustZone::External => false,
        }
    }

    /// Stores the keys of the local zone. A storage in another zone refuses
    /// with `InvalidZone` and stays as it is.
    pub fn store_local_keys(&mut self, keys: LocalZoneKeys) -> (r: Result<(), KeyError>)
        ensures
            final(self).spec_zone() == old(self).spec_zone(),
            r is Ok <==> old(self).spec_zone() == TrustZone::Local,
            r is Err ==> r->Err_0 == KeyError::InvalidZone && *final(self) == *old(self),
            r is Ok ==> final(self).spec_holds(TrustZone::Local) && forall|z: TrustZone|
                z != TrustZone::Local ==> final(self).spec_holds(z) == old(self).spec_holds(z),
    {
        match self.zone {
            TrustZone::Local => {
                self.local_keys = Some(keys);
                Ok(())
            },
            _ => Err(KeyError::InvalidZone),
        }
    }

    /// Stores the keys of the entry zone. A storage in another zone refuses
    /// with `InvalidZone` and stays as it is.
    pub fn store_entry_keys(&mut self, keys: EntryZoneKeys) -> (r: Result<(), KeyError>)
        ensures
            final(self).spec_zone() == old(self).spec_zone(),
            r is Ok <==> old(self).spec_zone() == TrustZone::Entry,
            r is Err ==> r->Err_0 == KeyError::InvalidZone && *final(self) == *old(self),
            r is Ok ==> final(self).spec_holds(TrustZone::Entry) && forall|z: TrustZone|
                z != TrustZone::Entry ==> final(self).spec_holds(z) == old(self).spec_holds(z),
    {
        match self.zone {
            TrustZone::Entry => {
                self.entry_keys = Some(keys);
                Ok(())
            },
            _ => Err(KeyError::InvalidZone),
        }
    }

    /// Stores the keys of the relay zone. A storage in another zone refuses
    /// with `InvalidZone` and stays as it is.
    pub fn store_relay_keys(&mut self, keys: RelayZoneKeys) -> (r: Result<(), KeyError>)
        ensures
            final(self).spec_zone() == old(self).spec_zone(),
            r is Ok <==> old(self).spec_zone() == TrustZone::Relay,
            r is Err ==> r->Err_0 == KeyError::InvalidZone && *final(self) == *old(self),
            r is Ok ==> final(self).spec_holds(TrustZone::Relay) && forall|z: TrustZone|
                z != TrustZone::Relay ==> final(self).spec_holds(z) == old(self).spec_holds(z),
    {
        match self.zone {
            TrustZone::Relay => {
                self.relay_keys = Some(keys);
                Ok(())
            },
            _ => Err(KeyError::InvalidZone),
        }
    }

    /// Stores the keys of the exit zone. A storage in another zone refuses
    /// with `InvalidZone` and stays as it is.
    pub fn store_exit_keys(&mut self, keys: ExitZoneKeys) -> (r: Result<(), KeyError>)
        ensures
            final(self).spec_zone() == old(self).spec_zone(),
            r is Ok <==> old(self).spec_zone() == TrustZone::Exit,
            r is Err ==> r->Err_0 == KeyError::InvalidZone && *final(self) == *old(self),
            r is Ok ==> final(self).spec_holds(TrustZone::Exit) && forall|z: TrustZone|
                z != TrustZone::Exit ==> final(self).spec_holds(z) == old(self).spec_holds(z),
    {
        match self.zone {
            TrustZone::Exit => {
                self.exit_keys = Some(keys);
                Ok(())
            },
            _ => Err(KeyError::InvalidZone),
        }
    }

    /// Forgets all keys.
    pub fn clear_all_keys(&mut self) -> (r: Result<(), KeyError>)
        ensures
            r is Ok,
            final(self).spec_zone() == old(self).spec_zone(),
            forall|z: TrustZone| !final(self).spec_holds(z),
    {
        self.local_keys = None;
        self.entry_keys = None;
        self.relay_keys = None;
        self.exit_keys = None;
        Ok(())
    }
}

} // verus!
