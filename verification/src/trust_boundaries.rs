//! Trust zones, the kinds of data that may be seen in each, and a boundary
//! that hands its data out only to the zone it belongs to.

use vstd::prelude::*;

verus! {

/// The zones a connection passes through, from the user's machine to the
/// destination.
#[derive(Debug, Clone, Copy, PartialEq, Eq, Hash, Structural)]
pub enum TrustZone {
    Local,
    Entry,
    Relay,
    Exit,
    External,
}

/// The address a connection comes from.
#[derive(Debug, Clone)]
pub struct SourceIp(pub String);

/// The host a connection goes to.
#[derive(Debug, Clone)]
pub struct DestinationHostname(pub String);

/// A payload in encrypted form.
#[derive(Debug, Clone)]
pub struct EncryptedPayload(pub Vec<u8>);

/// A payload in the clear.
#[derive(Debug, Clone)]
pub struct PlaintextPayload(pub Vec<u8>);

/// What a relay knows of a hop.
#[derive(Debug, Clone)]
pub struct RelayMetadata {
    pub hop_count: u32,
    pub encrypted_routing: Vec<u8>,
}

/// The name of a session.
#[derive(Debug, Clone)]
pub struct SessionId(pub String);

/// What may be seen in the local zone.
pub trait LocalZoneData {
    fn source_ip(&self) -> &SourceIp;

    fn destination_hostname(&self) -> &DestinationHostname;

    fn plaintext_payload(&self) -> &PlaintextPayload;

    fn session_id(&self) -> &SessionId;
}

/// What may be seen in the entry zone.
pub trait EntryZoneData {
    fn source_ip(&self) -> &SourceIp;

    fn encrypted_payload(&self) -> &EncryptedPayload;

    fn next_hop_metadata(&self) -> &RelayMetadata;

    fn session_id(&self) -> &SessionId;
}

/// What may be seen in the relay zone.
pub trait RelayZoneData {
    fn encrypted_payload(&self) -> &EncryptedPayload;

    fn previous_hop_metadata(&self) -> &RelayMetadata;

    fn next_hop_metadata(&self) -> &RelayMetadata;
}

/// What may be seen in the exit zone.
pub trait ExitZoneData {
    fn destination_hostname(&self) -> &DestinationHostname;

    fn plaintext_payload(&self) -> &PlaintextPayload;

    fn previous_hop_metadata(&self) -> &RelayMetadata;
}

/// What may be seen outside.
pub trait ExternalZoneData {
    fn plaintext_payload(&self) -> &PlaintextPayload;
}

/// Data together with the zone it belongs to.
pub struct TrustBoundary<T> {
    zone: TrustZone,
    data: T,
}

impl<T> TrustBoundary<T> {
    /// The zone of the boundary.
    pub closed spec fn spec_zone(&self) -> TrustZone {
        self.zone
    }

    /// The data behind the boundary.
    pub closed spec fn spec_data(&self) -> T {
        self.data
    }

    /// A boundary round `data` in `zone`.
    pub fn new(zone: TrustZone, data: T) -> (boundary: TrustBoundary<T>)
        ensures
            boundary.spec_zone() == zone,
            boundary.spec_data() == data,
    {
        TrustBoundary { zone, data }
    }

    /// The zone of the boundary.
    pub fn zone(&self) -> (zone: &TrustZone)
        ensures
            *zone == self.spec_zone(),
    {
        &self.zone
    }

    /// The data, if the boundary is in `zone`.
    pub fn data_in(&self, zone: TrustZone) -> (data: Option<&T>)
        ensures
            data is Some <==> self.spec_zone() == zone,
            data is Some ==> *data->Some_0 == self.spec_data(),
    {
        if self.zone == zone {
            Some(&self.data)
        } else {
            None
        }
    }
}

impl<T: LocalZoneData> TrustBoundary<T> {
    /// The data, if the boundary is in the local zone.
    pub fn as_local(&self) -> (data: Option<&T>)
        ensures
            data is Some <==> self.spec_zone() == TrustZone::Local,
            data is Some ==> *data->Some_0 == self.spec_data(),
    {
        self.data_in(TrustZone::Local)
    }
}

impl<T: EntryZoneData> TrustBoundary<T> {
    /// The data, if the boundary is in the entry zone.
    pub fn as_entry(&self) -> (data: Option<&T>)
        ensures
            data is Some <==> self.spec_zone() == TrustZone::Entry,
            data is Some ==> *data->Some_0 == self.spec_data(),
    {
        self.data_in(TrustZone::Entry)
    }
}

impl<T: RelayZoneData> TrustBoundary<T> {
    /// The data, if the boundary is in the relay zone.
    pub fn as_relay(&self) -> (data: Option<&T>)
        ensures
            data is Some <==> self.spec_zone() == TrustZone::Relay,
            data is Some ==> *data->Some_0 == self.spec_data(),
    {
        self.data_in(TrustZone::Relay)
    }
}

impl<T: ExitZoneData> TrustBoundary<T> {
    /// The data, if the boundary is in the exit zone.
    pub fn as_exit(&self) -> (data: Option<&T>)
        ensures
            data is Some <==> self.spec_zone() == TrustZone::Exit,
            data is Some ==> *data->Some_0 == self.spec_data(),
    {
        self.data_in(TrustZone::Exit)
    }
}

impl<T: ExternalZoneData> TrustBoundary<T> {
    /// The data, if the boundary is outside.
    pub fn as_external(&self) -> (data: Option<&T>)
        ensures
            data is Some <==> self.spec_zone() == TrustZone::External,
            data is Some ==> *data->Some_0 == self.spec_data(),
    {
        self.data_in(TrustZone::External)
    }
}

/// Why a zone transition was refused.
#[derive(Debug, Clone, Copy, PartialEq, Eq, Structural)]
pub enum TransitionError {
    /// The data is not in the zone the transition starts from.
    InvalidZoneTransition,
}

/// The transitions from one zone to the next.
pub struct ZoneTransition;

impl ZoneTransition {
    /// Moves data from `from` to `to`: the boundary must be in `from`, and
    /// `convert` makes of the data what the next zone may see.
    fn advance<T, U>(boundary: TrustBoundary<T>, from: TrustZone, to: TrustZone, next: U) -> (r:
        Result<TrustBoundary<U>, TransitionError>)
        ensures
            boundary.spec_zone() != from ==> r is Err,
            boundary.spec_zone() == from ==> r is Ok && r->Ok_0.spec_zone() == to
                && r->Ok_0.spec_data() == next,
    {
        if boundary.zone != from {
            return Err(TransitionError::InvalidZoneTransition);
        }
        Ok(TrustBoundary { zone: to, data: next })
    }

    /// Hands `entry_data` on to the entry zone in place of the local data.
    /// Data that is not in the local zone is refused.
    pub fn local_to_entry<T: LocalZoneData, U: EntryZoneData>(
        local_data: TrustBoundary<T>,
        entry_data: U,
    ) -> (r: Result<TrustBoundary<U>, TransitionError>)
        ensures
            local_data.spec_zone() != TrustZone::Local ==> r is Err,
            local_data.spec_zone() == TrustZone::Local ==> r is Ok && r->Ok_0.spec_zone()
                == TrustZone::Entry && r->Ok_0.spec_data() == entry_data,
    {
        ZoneTransition::advance(local_data, TrustZone::Local, TrustZone::Entry, entry_data)
    }

    /// Hands `relay_data` on to the relay zone in place of the entry data.
    /// Data that is not in the entry zone is refused.
    pub fn entry_to_relay<T: EntryZoneData, U: RelayZoneData>(
        entry_data: TrustBoundary<T>,
        relay_data: U,
    ) -> (r: Result<TrustBoundary<U>, TransitionError>)
        ensures
            entry_data.spec_zone() != TrustZone::Entry ==> r is Err,
            entry_data.spec_zone() == TrustZone::Entry ==> r is Ok && r->Ok_0.spec_zone()
                == TrustZone::Relay && r->Ok_0.spec_data() == relay_data,
    {
        ZoneTransition::advance(entry_data, TrustZone::Entry, TrustZone::Relay, relay_data)
    }

    /// Hands `exit_data` on to the exit zone in place of the relay data.
    /// Data that is not in the relay zone is refused.
    pub fn relay_to_exit<T: RelayZoneData, U: ExitZoneData>(
        relay_data: TrustBoundary<T>,
        exit_data: U,
    ) -> (r: Result<TrustBoundary<U>, TransitionError>)
        ensures
            relay_data.spec_zone() != TrustZone::Relay ==> r is Err,
            relay_data.spec_zone() == TrustZone::Relay ==> r is Ok && r->Ok_0.spec_zone()
                == TrustZone::Exit && r->Ok_0.spec_data() == exit_data,
    {
        ZoneTransition::advance(relay_data, TrustZone::Relay, TrustZone::Exit, exit_data)
    }

    /// Hands `external_data` on to the outside in place of the exit data.
    /// Data that is not in the exit zone is refused.
    pub fn exit_to_external<T: ExitZoneData, U: ExternalZoneData>(
        exit_data: TrustBoundary<T>,
        external_data: U,
    ) -> (r: Result<TrustBoundary<U>, TransitionError>)
        ensures
            exit_data.spec_zone() != TrustZone::Exit ==> r is Err,
            exit_data.spec_zone() == TrustZone::Exit ==> r is Ok && r->Ok_0.spec_zone()
                == TrustZone::External && r->Ok_0.spec_data() == external_data,
    {
        ZoneTransition::advance(exit_data, TrustZone::Exit, TrustZone::External, external_data)
    }
}

} // verus!
