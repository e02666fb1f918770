//! Marker types and traits that say, in the type of a component, which
//! anonymity guarantees it keeps or which legacy allowances it takes.

use vstd::prelude::*;
use std::marker::PhantomData;

verus! {

/// Closes the marker traits: only the phases of this module carry them.
pub trait Sealed {

}

/// No connection belongs to one user.
pub trait NoPerUserConnectionOwnership: Sealed {

}

/// No socket stays mapped to one connection.
pub trait NoStableSocketMapping: Sealed {

}

/// The time a frame leaves says nothing of the time it arrived.
pub trait NoDirectTimingCorrespondence: Sealed {

}

/// A relay cannot link what it receives to what it sends.
pub trait NoRelayLocalLinkability: Sealed {

}

/// All four anonymity guarantees together.
pub trait Phase9Anonymity: Sealed + NoPerUserConnectionOwnership + NoStableSocketMapping + NoDirectTimingCorrespondence + NoRelayLocalLinkability {

}

/// The phase that keeps all four guarantees.
#[derive(Debug, Clone, Copy, PartialEq, Eq)]
pub struct Phase9;

impl Sealed for Phase9 {

}

impl NoPerUserConnectionOwnership for Phase9 {

}

impl NoStableSocketMapping for Phase9 {

}

impl NoDirectTimingCorrespondence for Phase9 {

}

impl NoRelayLocalLinkability for Phase9 {

}

impl Phase9Anonymity for Phase9 {

}

/// A component may own a connection per user.
pub trait AllowsPerUserConnectionOwnership: Sealed {

}

/// A component may keep a socket mapped to one connection.
pub trait AllowsStableSocketMapping: Sealed {

}

/// A component may forward in arrival order and at once.
pub trait AllowsDirectTimingCorrespondence: Sealed {

}

/// A component may link what it receives to what it sends.
pub trait AllowsRelayLocalLinkability: Sealed {

}

/// The phase of the components that predate the anonymity pipeline.
#[derive(Debug, Clone, Copy, PartialEq, Eq)]
pub struct LegacyPhase;

impl Sealed for LegacyPhase {

}

impl AllowsPerUserConnectionOwnership for LegacyPhase {

}

impl AllowsStableSocketMapping for LegacyPhase {

}

impl AllowsDirectTimingCorrespondence for LegacyPhase {

}

impl AllowsRelayLocalLinkability for LegacyPhase {

}

/// Evidence that a component was built for a phase with all four guarantees.
#[derive(Debug, PartialEq, Eq)]
pub struct Phase9Token<P: Phase9Anonymity>(PhantomData<P>);

impl Phase9Token<Phase9> {
    /// The token of the anonymity phase.
    pub fn new() -> Phase9Token<Phase9> {
        Phase9Token(PhantomData)
    }
}

/// Evidence that a component takes the legacy allowances.
#[derive(Debug, PartialEq, Eq)]
pub struct LegacyToken<
    P: AllowsPerUserConnectionOwnership + AllowsStableSocketMapping + AllowsDirectTimingCorrespondence + AllowsRelayLocalLinkability,
>(PhantomData<P>);

impl LegacyToken<LegacyPhase> {
    /// The token of the legacy phase.
    pub fn new() -> LegacyToken<LegacyPhase> {
        LegacyToken(PhantomData)
    }
}

} // verus!
