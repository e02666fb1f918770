//! The threat invariants of the system and a check of a component's context
//! against them.

use vstd::prelude::*;
use vstd::string::StringSliceAdditionalSpecFns;
use vstd::utf8::encode_utf8;
use crate::guard::{contains_token, spec_contains};

verus! {

/// The threat invariants.
#[derive(Debug, Clone, Copy, PartialEq, Eq, Hash, Structural)]
pub enum InvariantId {
    DnsResolutionAtExitOnly,
    NoSourceDestinationCorrelation,
    IspTrafficEncrypted,
    EntryNodeBlindToDestination,
    ExitNodeBlindToSource,
    LoggingOptIn,
}

/// A breach of a threat invariant.
#[derive(Debug, Clone)]
pub enum InvariantViolation {
    DnsResolutionAtExitOnly { component: String, attempted_hostname: String },
    NoSourceDestinationCorrelation { component: String, has_source_ip: bool, has_destination: bool },
    IspTrafficEncrypted { component: String, plaintext_detected: bool },
    EntryNodeBlindToDestination { entry_node: String, destination_exposed: String },
    ExitNodeBlindToSource { exit_node: String, source_ip_exposed: String },
    LoggingOptIn { component: String, implicit_logging: bool },
}

/// A threat invariant with its description.
#[derive(Debug, Clone)]
pub struct ThreatInvariant {
    pub id: InvariantId,
    pub description: String,
    pub enabled: bool,
}

/// What is known of a component.
#[derive(Debug, Clone)]
pub struct InvariantContext {
    pub component_name: String,
    pub has_source_ip: bool,
    pub has_destination_hostname: bool,
    pub traffic_encrypted: bool,
    pub dns_resolution_attempted: bool,
    pub logging_enabled: bool,
}

/// The invariant that a violation breaches, and the component it names.
pub open spec fn spec_violation(v: InvariantViolation) -> (InvariantId, Seq<char>) {
    match v {
        InvariantViolation::DnsResolutionAtExitOnly { component, .. } => (
            InvariantId::DnsResolutionAtExitOnly,
            component@,
        ),
        InvariantViolation::NoSourceDestinationCorrelation { component, .. } => (
            InvariantId::NoSourceDestinationCorrelation,
            component@,
        ),
        InvariantViolation::IspTrafficEncrypted { component, .. } => (
            InvariantId::IspTrafficEncrypted,
            component@,
        ),
        InvariantViolation::EntryNodeBlindToDestination { entry_node, .. } => (
            InvariantId::EntryNodeBlindToDestination,
            entry_node@,
        ),
        InvariantViolation::ExitNodeBlindToSource { exit_node, .. } => (
            InvariantId::ExitNodeBlindToSource,
            exit_node@,
        ),
        InvariantViolation::LoggingOptIn { component, .. } => (
            InvariantId::LoggingOptIn,
            component@,
        ),
    }
}

/// The violations of a list, each by its invariant and component.
pub open spec fn spec_violations(v: Seq<InvariantViolation>) -> Seq<(InvariantId, Seq<char>)> {
    Seq::new(v.len(), |i: int| spec_violation(v[i]))
}

/// Whether the invariant `id` is switched on in a list of invariants: the
/// first entry for it says so; an invariant without entry is off.
pub open spec fn spec_enabled_in(invariants: Seq<ThreatInvariant>, id: InvariantId) -> bool
    decreases invariants.len(),
{
    if invariants.len() == 0 {
        false
    } else if invariants[0].id == id {
        invariants[0].enabled
    } else {
        spec_enabled_in(invariants.skip(1), id)
    }
}

/// Whether a component resolved names outside the exit node.
pub open spec fn spec_breaks_dns(c: InvariantContext) -> bool {
    c.dns_resolution_attempted && c.component_name@ != "exit_node"@
}

/// Whether a component sees both where a connection comes from and where it
/// goes.
pub open spec fn spec_breaks_correlation(c: InvariantContext) -> bool {
    c.has_source_ip && c.has_destination_hostname
}

/// Whether a component that faces the ISP sends in the clear.
pub open spec fn spec_breaks_encryption(c: InvariantContext) -> bool {
    !c.traffic_encrypted && spec_contains(
        encode_utf8(c.component_name@),
        "isp_facing".spec_bytes(),
    )
}

/// Whether a component logs without having been asked to.
pub open spec fn spec_breaks_logging(c: InvariantContext) -> bool {
    c.logging_enabled && c.component_name@ != "explicit_logging"@
}

/// The invariants that a context breaches, in the order they are checked;
/// an invariant that is switched off is not checked.
pub open spec fn spec_check_context(invariants: Seq<ThreatInvariant>, c: InvariantContext) -> Seq<
    (InvariantId, Seq<char>),
> {
    let name = c.component_name@;
    let dns = if spec_enabled_in(invariants, InvariantId::DnsResolutionAtExitOnly)
        && spec_breaks_dns(c) {
        seq![(InvariantId::DnsResolutionAtExitOnly, name)]
    } else {
        Seq::<(InvariantId, Seq<char>)>::empty()
    };
    let correlation = if spec_enabled_in(invariants, InvariantId::NoSourceDestinationCorrelation)
        && spec_breaks_correlation(c) {
        seq![(InvariantId::NoSourceDestinationCorrelation, name)]
    } else {
        Seq::<(InvariantId, Seq<char>)>::empty()
    };
    let encryption = if spec_enabled_in(invariants, InvariantId::IspTrafficEncrypted)
        && spec_breaks_encryption(c) {
        seq![(InvariantId::IspTrafficEncrypted, name)]
    } else {
        Seq::<(InvariantId, Seq<char>)>::empty()
    };
    let logging = if spec_enabled_in(invariants, InvariantId::LoggingOptIn) && spec_breaks_logging(
        c,
    ) {
        seq![(InvariantId::LoggingOptIn, name)]
    } else {
        Seq::<(InvariantId, Seq<char>)>::empty()
    };
    dns + correlation + encryption + logging
}

/// The six invariants in their order.
pub open spec fn spec_invariant_ids() -> Seq<InvariantId> {
    seq![
        InvariantId::DnsResolutionAtExitOnly,
        InvariantId::NoSourceDestinationCorrelation,
        InvariantId::IspTrafficEncrypted,
        InvariantId::EntryNodeBlindToDestination,
        InvariantId::ExitNodeBlindToSource,
        InvariantId::LoggingOptIn,
    ]
}

/// The entry that decides whether an invariant is switched on is the first
/// one for it.
pub proof fn lemma_enabled_at(invariants: Seq<ThreatInvariant>, id: InvariantId, at: int)
    requires
        0 <= at < invariants.len(),
        invariants[at].id == id,
        forall|j: int| 0 <= j < at ==> (#[trigger] invariants[j]).id != id,
    ensures
        spec_enabled_in(invariants, id) == invariants[at].enabled,
    decreases at,
{
    if at > 0 {
        let rest = invariants.skip(1);
        assert(invariants[0].id != id);
        assert forall|j: int| 0 <= j < at - 1 implies (#[trigger] rest[j]).id != id by {
            assert(rest[j] == invariants[j + 1]);
        }
        lemma_enabled_at(rest, id, at - 1);
    }
}

/// The list of threat invariants.
pub struct ThreatInvariants {
    invariants: Vec<ThreatInvariant>,
}

impl View for ThreatInvariants {
    type V = Seq<ThreatInvariant>;

    closed spec fn view(&self) -> Seq<ThreatInvariant> {
        self.invariants@
    }
}

impl ThreatInvariants {
    /// All six invariants, in their order, each switched on.
    pub fn new() -> (all: ThreatInvariants)
        ensures
            all@.len() == 6,
            forall|i: int|
                0 <= i < 6 ==> (#[trigger] all@[i]).id == spec_invariant_ids()[i] && all@[i].enabled,
            forall|i: int| 0 <= i < 6 ==> spec_enabled_in(all@, #[trigger] spec_invariant_ids()[i]),
    {
        let invariants = vec![
            ThreatInvariant {
                id: InvariantId::DnsResolutionAtExitOnly,
                description: "DNS resolution must only occur at the exit node".to_string(),
                enabled: true,
            },
            ThreatInvariant {
                id: InvariantId::NoSourceDestinationCorrelation,
                description: "No component may have access to both source IP and destination hostname".to_string(),
                enabled: true,
            },
            ThreatInvariant {
                id: InvariantId::IspTrafficEncrypted,
                description: "ISP-facing traffic must be encrypted before leaving local machine".to_string(),
                enabled: true,
            },
            ThreatInvariant {
                id: InvariantId::EntryNodeBlindToDestination,
                description: "Entry node must never know final destination".to_string(),
                enabled: true,
            },
            ThreatInvariant {
                id: InvariantId::ExitNodeBlindToSource,
                description: "Exit node must never know client source IP".to_string(),
                enabled: true,
            },
            ThreatInvariant {
                id: InvariantId::LoggingOptIn,
                description: "Logging must be opt-in and disabled by default".to_string(),
                enabled: true,
            },
        ];
        let all = ThreatInvariants { invariants };
        proof {
            let s = all@;
            assert forall|i: int| 0 <= i < 6 implies spec_enabled_in(
                s,
                #[trigger] spec_invariant_ids()[i],
            ) by {
                lemma_enabled_at(s, spec_invariant_ids()[i], i);
            }
        }
        all
    }

    /// The first entry for the invariant `id`, if there is one.
    pub fn get_invariant(&self, id: &InvariantId) -> (found: Option<&ThreatInvariant>)
        ensures
            found is Some ==> found->Some_0.id == *id && found->Some_0.enabled == spec_enabled_in(
                self@,
                *id,
            ),
            found is None ==> !spec_enabled_in(self@, *id) && forall|i: int|
                0 <= i < self@.len() ==> (#[trigger] self@[i]).id != *id,
    {
        let mut i: usize = 0;
        proof {
            assert(self@.skip(0) =~= self@);
        }
        while i < self.invariants.len()
            invariant
                0 <= i <= self@.len(),
                spec_enabled_in(self@, *id) == spec_enabled_in(self@.skip(i as int), *id),
                forall|j: int| 0 <= j < i ==> (#[trigger] self@[j]).id != *id,
            decreases self@.len() - i,
        {
            proof {
                assert(self@.skip(i as int).skip(1) =~= self@.skip(i + 1));
                assert(self@.skip(i as int)[0] == self@[i as int]);
            }
            if self.invariants[i].id == *id {
                return Some(&self.invariants[i]);
            }
            i += 1;
        }
        None
    }

    /// Whether the invariant `id` is switched on.
    pub fn is_enabled(&self, id: &InvariantId) -> (enabled: bool)
        ensures
            enabled == spec_enabled_in(self@, *id),
    {
        match self.get_invariant(id) {
            Some(entry) => entry.enabled,
            None => false,
        }
    }

    /// The invariants that `context` breaches.
    ///
    /// Checked in this order, each only if it is switched on: name
    /// resolution anywhere but at the exit node; sight of both source and
    /// destination; traffic in the clear from a component that faces the
    /// ISP; logging that was not asked for.
    pub fn check_context(&self, context: &InvariantContext) -> (violations: Vec<
        InvariantViolation,
    >)
        ensures
            spec_violations(violations@) == spec_check_context(self@, *context),
    {
        let mut violations: Vec<InvariantViolation> = Vec::new();
        let ghost name = context.component_name@;
        let ghost empty = Seq::<(InvariantId, Seq<char>)>::empty();
        proof {
            assert(spec_violations(violations@) =~= empty);
        }
        if self.is_enabled(&InvariantId::DnsResolutionAtExitOnly) {
            let exit_node = "exit_node".to_string();
            if context.dns_resolution_attempted && !(context.component_name == exit_node) {
                let ghost before = violations@;
                violations.push(
                    InvariantViolation::DnsResolutionAtExitOnly {
                        component: context.component_name.clone(),
                        attempted_hostname: "detected".to_string(),
                    },
                );
                proof {
                    assert(spec_violations(violations@) =~= spec_violations(before).push(
                        (InvariantId::DnsResolutionAtExitOnly, name),
                    ));
                }
            }
        }
        let ghost after_dns = spec_violations(violations@);
        if self.is_enabled(&InvariantId::NoSourceDestinationCorrelation) {
            if context.has_source_ip && context.has_destination_hostname {
                let ghost before = violations@;
                violations.push(
                    InvariantViolation::NoSourceDestinationCorrelation {
                        component: context.component_name.clone(),
                        has_source_ip: true,
                        has_destination: true,
                    },
                );
                proof {
                    assert(spec_violations(violations@) =~= spec_violations(before).push(
                        (InvariantId::NoSourceDestinationCorrelation, name),
                    ));
                }
            }
        }
        let ghost after_correlation = spec_violations(violations@);
        if self.is_enabled(&InvariantId::IspTrafficEncrypted) {
            if !context.traffic_encrypted && contains_token(
                context.component_name.as_str().as_bytes(),
                "isp_facing".as_bytes(),
            ) {
                let ghost before = violations@;
                violations.push(
                    InvariantViolation::IspTrafficEncrypted {
                        component: context.component_name.clone(),
                        plaintext_detected: true,
                    },
                );
                proof {
                    assert(spec_violations(violations@) =~= spec_violations(before).push(
                        (InvariantId::IspTrafficEncrypted, name),
                    ));
                }
            }
        }
        let ghost after_encryption = spec_violations(violations@);
        if self.is_enabled(&InvariantId::LoggingOptIn) {
            let explicit_logging = "explicit_logging".to_string();
            if context.logging_enabled && !(context.component_name == explicit_logging) {
                let ghost before = violations@;
                violations.push(
                    InvariantViolation::LoggingOptIn {
                        component: context.component_name.clone(),
                        implicit_logging: true,
                    },
                );
                proof {
                    assert(spec_violations(violations@) =~= spec_violations(before).push(
                        (InvariantId::LoggingOptIn, name),
                    ));
                }
            }
        }
        proof {
            assert(spec_violations(violations@) =~= spec_check_context(self@, *context));
        }
        violations
    }
}

impl Default for ThreatInvariants {
    /// All six invariants, each switched on.
    fn default() -> (all: ThreatInvariants)
        ensures
            all@.len() == 6,
            forall|i: int| 0 <= i < 6 ==> spec_enabled_in(all@, #[trigger] spec_invariant_ids()[i]),
    {
        ThreatInvariants::new()
    }
}

} // verus!
