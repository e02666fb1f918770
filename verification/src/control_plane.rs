//! The control plane of the layered transport: which zone may start a
//! session, exchange keys or set up a route.

use vstd::prelude::*;
use crate::trust_boundaries::TrustZone;

verus! {

/// The name of a session.
#[derive(Debug, Clone, Copy, PartialEq, Eq, Hash)]
pub struct SessionId(pub [u8; 32]);

/// A public key.
#[derive(Debug, Clone, Copy)]
pub struct PublicKey(pub [u8; 32]);

/// A private key.
#[derive(Debug, Clone, Copy)]
pub struct PrivateKey(pub [u8; 32]);

/// A route in encrypted form.
#[derive(Debug, Clone)]
pub struct EncryptedRoute(pub Vec<u8>);

/// The key of one hop.
#[derive(Debug, Clone, Copy)]
pub struct HopKey(pub [u8; 32]);

/// Why the control plane refused an operation.
#[derive(Debug, Clone, Copy, PartialEq, Eq, Structural)]
pub enum ControlError {
    InvalidZone,
    KeyExchangeFailed,
    RouteSetupFailed,
}

/// Thirty-two zero bytes.
pub open spec fn spec_zero_key() -> Seq<u8> {
    Seq::new(32, |i: int| 0u8)
}

/// Key material as the placeholder generator yields it: thirty-two zero
/// bytes.
pub fn random() -> (key: [u8; 32])
    ensures
        key@ == spec_zero_key(),
{
    let key = [0u8; 32];
    assert(key@ =~= spec_zero_key());
    key
}

/// Whether two session names are the same.
pub fn same_session(a: &SessionId, b: &SessionId) -> (same: bool)
    ensures
        same == (a.0@ == b.0@),
{
    let mut i: usize = 0;
    while i < 32
        invariant
            0 <= i <= 32,
            forall|j: int| 0 <= j < i ==> a.0@[j] == b.0@[j],
        decreases 32 - i,
    {
        if a.0[i] != b.0[i] {
            return false;
        }
        i += 1;
    }
    assert(a.0@ =~= b.0@);
    true
}

/// Starts sessions. Only the local zone may.
pub struct SessionEstablisher {
    zone: TrustZone,
}

impl SessionEstablisher {
    /// The zone of the establisher.
    pub closed spec fn spec_zone(&self) -> TrustZone {
        self.zone
    }

    /// A session establisher in `zone`.
    pub fn new(zone: TrustZone) -> (e: SessionEstablisher)
        ensures
            e.spec_zone() == zone,
    {
        SessionEstablisher { zone }
    }

    /// Starts a session over `route`. Any zone but the local one is refused
    /// with `InvalidZone`.
    pub fn initiate_session(&self, route: EncryptedRoute) -> (r: Result<SessionId, ControlError>)
        ensures
            self.spec_zone() == TrustZone::Local ==> r is Ok && r->Ok_0.0@ == spec_zero_key(),
            self.spec_zone() != TrustZone::Local ==> r is Err && r->Err_0
                == ControlError::InvalidZone,
    {
        match self.zone {
            TrustZone::Local => Ok(SessionId(random())),
            _ => Err(ControlError::InvalidZone),
        }
    }
}

/// Keeps a hop key for each session that exchanged one. Only the entry and
/// relay zones exchange keys.
pub struct KeyExchanger {
    zone: TrustZone,
    hop_keys: Vec<(SessionId, HopKey)>,
}

impl KeyExchanger {
    /// The zone of the exchanger.
    pub closed spec fn spec_zone(&self) -> TrustZone {
        self.zone
    }

    /// The sessions that have a hop key.
    pub closed spec fn spec_sessions(&self) -> Set<Seq<u8>> {
        Set::new(
            |s: Seq<u8>|
                exists|j: int| 0 <= j < self.hop_keys@.len() && (#[trigger] self.hop_keys@[j]).0.0@
                    == s,
        )
    }

    /// A key exchanger in `zone` without keys.
    pub fn new(zone: TrustZone) -> (e: KeyExchanger)
        ensures
            e.spec_zone() == zone,
            e.spec_sessions() == Set::<Seq<u8>>::empty(),
    {
        let e = KeyExchanger { zone, hop_keys: Vec::new() };
        assert(e.spec_sessions() =~= Set::<Seq<u8>>::empty());
        e
    }

    /// Whether `session_id` has a hop key.
    pub fn has_key(&self, session_id: &SessionId) -> (has: bool)
        ensures
            has == self.spec_sessions().contains(session_id.0@),
    {
        let mut i: usize = 0;
        while i < self.hop_keys.len()
            invariant
                0 <= i <= self.hop_keys@.len(),
                forall|j: int| 0 <= j < i ==> (#[trigger] self.hop_keys@[j]).0.0@
                    != session_id.0@,
            decreases self.hop_keys@.len() - i,
        {
            if same_session(&self.hop_keys[i].0, session_id) {
                return true;
            }
            i += 1;
        }
        false
    }

    /// Exchanges a key for `session_id`, which has a hop key from then on.
    /// Zones other than entry and relay are refused with `InvalidZone` and
    /// keep their keys as they are.
    pub fn exchange_key(&mut self, session_id: SessionId, encrypted_key: Vec<u8>) -> (r: Result<
        (),
        ControlError,
    >)
        ensures
            final(self).spec_zone() == old(self).spec_zone(),
            old(self).spec_zone() == TrustZone::Entry || old(self).spec_zone() == TrustZone::Relay
                ==> r is Ok && final(self).spec_sessions() == old(self).spec_sessions().insert(
                session_id.0@,
            ),
            !(old(self).spec_zone() == TrustZone::Entry || old(self).spec_zone()
                == TrustZone::Relay) ==> r == Err::<(), ControlError>(ControlError::InvalidZone)
                && final(self).spec_sessions() == old(self).spec_sessions(),
    {
        match self.zone {
            TrustZone::Entry | TrustZone::Relay => {
                if !self.has_key(&session_id) {
                    let hop_key = HopKey(random());
                    self.hop_keys.push((session_id, hop_key));
                    proof {
                        let before = old(self).hop_keys@;
                        let after = self.hop_keys@;
                        assert forall|s: Seq<u8>| #[trigger]
                            self.spec_sessions().contains(s) == old(self).spec_sessions().insert(
                                session_id.0@,
                            ).contains(s) by {
                            if s == session_id.0@ {
                                assert(after[before.len() as int].0.0@ == s);
                            } else if old(self).spec_sessions().contains(s) {
                                let j = choose|j: int|
                                    0 <= j < before.len() && (#[trigger] before[j]).0.0@ == s;
                                assert(after[j].0.0@ == s);
                            } else if self.spec_sessions().contains(s) {
                                let j = choose|j: int|
                                    0 <= j < after.len() && (#[trigger] after[j]).0.0@ == s;
                                assert(before[j].0.0@ == s);
                            }
                        }
                        assert(self.spec_sessions() =~= old(self).spec_sessions().insert(
                            session_id.0@,
                        ));
                    }
                } else {
                    proof {
                        assert(self.spec_sessions() =~= old(self).spec_sessions().insert(
                            session_id.0@,
                        ));
                    }
                }
                Ok(())
            },
            _ => Err(ControlError::InvalidZone),
        }
    }
}

/// Sets up routes. The local zone and the outside may not.
pub struct RouteNegotiator {
    zone: TrustZone,
}

impl RouteNegotiator {
    /// The zone of the negotiator.
    pub closed spec fn spec_zone(&self) -> TrustZone {
        self.zone
    }

    /// A route negotiator in `zone`.
    pub fn new(zone: TrustZone) -> (n: RouteNegotiator)
        ensures
            n.spec_zone() == zone,
    {
        RouteNegotiator { zone }
    }

    /// Sets up the route to the next hop. The entry, relay and exit zones
    /// may; the others are refused with `InvalidZone`.
    pub fn setup_route(&self, encrypted_next_hop: Vec<u8>) -> (r: Result<(), ControlError>)
        ensures
            r is Ok <==> (self.spec_zone() == TrustZone::Entry || self.spec_zone()
                == TrustZone::Relay || self.spec_zone() == TrustZone::Exit),
            r is Err ==> r->Err_0 == ControlError::InvalidZone,
    {
        match self.zone {
            TrustZone::Entry | TrustZone::Relay | TrustZone::Exit => Ok(()),
            _ => Err(ControlError::InvalidZone),
        }
    }
}

/// Handles the control messages of one zone.
pub struct ControlMessageHandler {
    zone: TrustZone,
    session_establisher: SessionEstablisher,
    key_exchanger: KeyExchanger,
    route_negotiator: RouteNegotiator,
}

impl ControlMessageHandler {
    /// The zone of the handler.
    pub closed spec fn spec_zone(&self) -> TrustZone {
        self.zone
    }

    /// The invariant of the handler: its parts are in its zone.
    pub closed spec fn wf(&self) -> bool {
        &&& self.session_establisher.spec_zone() == self.zone
        &&& self.key_exchanger.spec_zone() == self.zone
        &&& self.route_negotiator.spec_zone() == self.zone
    }

    /// A handler in `zone`.
    pub fn new(zone: TrustZone) -> (h: ControlMessageHandler)
        ensures
            h.wf(),
            h.spec_zone() == zone,
    {
        ControlMessageHandler {
            zone,
            session_establisher: SessionEstablisher::new(zone),
            key_exchanger: KeyExchanger::new(zone),
            route_negotiator: RouteNegotiator::new(zone),
        }
    }

    /// Starts a session; only the local zone may.
    pub fn handle_session_init(&mut self, route: EncryptedRoute) -> (r: Result<
        SessionId,
        ControlError,
    >)
        requires
            old(self).wf(),
        ensures
            final(self).wf(),
            final(self).spec_zone() == old(self).spec_zone(),
            r is Ok <==> old(self).spec_zone() == TrustZone::Local,
            r is Err ==> r->Err_0 == ControlError::InvalidZone,
    {
        self.session_establisher.initiate_session(route)
    }

    /// Exchanges a key; only the entry and relay zones may.
    pub fn handle_key_exchange(&mut self, session_id: SessionId, encrypted_key: Vec<u8>) -> (r:
        Result<(), ControlError>)
        requires
            old(self).wf(),
        ensures
            final(self).wf(),
            final(self).spec_zone() == old(self).spec_zone(),
            r is Ok <==> (old(self).spec_zone() == TrustZone::Entry || old(self).spec_zone()
                == TrustZone::Relay),
            r is Err ==> r->Err_0 == ControlError::InvalidZone,
    {
        self.key_exchanger.exchange_key(session_id, encrypted_key)
    }

    /// Sets up a route; only the entry, relay and exit zones may.
    pub fn handle_route_setup(&self, encrypted_next_hop: Vec<u8>) -> (r: Result<(), ControlError>)
        requires
            self.wf(),
        ensures
            r is Ok <==> (self.spec_zone() == TrustZone::Entry || self.spec_zone()
                == TrustZone::Relay || self.spec_zone() == TrustZone::Exit),
            r is Err ==> r->Err_0 == ControlError::InvalidZone,
    {
        self.route_negotiator.setup_route(encrypted_next_hop)
    }
}

} // verus!
