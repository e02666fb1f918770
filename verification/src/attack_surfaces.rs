//! The known attack surfaces: for each threat invariant, the ways in which a
//! component could breach it.

use vstd::prelude::*;
use vstd::string::StringSliceAdditionalSpecFns;
use vstd::utf8::encode_utf8;
use crate::text::bytes_eq;
use crate::threat_invariants::InvariantId;

verus! {

/// How grave a breach would be.
#[derive(Debug, Clone, Copy, PartialEq, Eq, Structural)]
pub enum Severity {
    Low,
    Medium,
    High,
}

/// One way in which a component could breach an invariant.
#[derive(Debug, Clone)]
pub struct AttackSurface {
    pub invariant_id: InvariantId,
    pub violation_path: String,
    pub severity: Severity,
    pub component: String,
}

/// An attack surface as a mathematical value.
pub open spec fn spec_surface(s: AttackSurface) -> (InvariantId, Seq<char>, Severity, Seq<char>) {
    (s.invariant_id, s.violation_path@, s.severity, s.component@)
}

/// The attack surfaces of a list, each as a mathematical value.
pub open spec fn spec_surfaces(s: Seq<AttackSurface>) -> Seq<
    (InvariantId, Seq<char>, Severity, Seq<char>),
> {
    Seq::new(s.len(), |i: int| spec_surface(s[i]))
}

/// The attack surfaces behind a list of references.
pub open spec fn spec_selected(s: Seq<&AttackSurface>) -> Seq<AttackSurface> {
    Seq::new(s.len(), |i: int| *s[i])
}

/// The known attack surfaces: three for each threat invariant.
pub open spec fn spec_known_surfaces() -> Seq<(InvariantId, Seq<char>, Severity, Seq<char>)> {
    seq![
        (InvariantId::DnsResolutionAtExitOnly, "OS resolver fallback in DoH failure"@, Severity::High, "dns_resolver"@),
        (InvariantId::DnsResolutionAtExitOnly, "System DNS via ToSocketAddrs"@, Severity::High, "transport"@),
        (InvariantId::DnsResolutionAtExitOnly, "Browser DNS prefetch bypass"@, Severity::Medium, "proxy"@),
        (InvariantId::NoSourceDestinationCorrelation, "Proxy logs client IP with CONNECT target"@, Severity::High, "real_proxy"@),
        (InvariantId::NoSourceDestinationCorrelation, "Transport stores both source and destination"@, Severity::High, "real_transport"@),
        (InvariantId::NoSourceDestinationCorrelation, "Session state correlation"@, Severity::Medium, "session"@),
        (InvariantId::IspTrafficEncrypted, "Plaintext CONNECT before TLS"@, Severity::High, "relay_transport"@),
        (InvariantId::IspTrafficEncrypted, "DNS queries in plaintext"@, Severity::High, "dns_resolver"@),
        (InvariantId::IspTrafficEncrypted, "Control channel metadata leak"@, Severity::Medium, "control_channel"@),
        (InvariantId::EntryNodeBlindToDestination, "SNI visible to entry relay"@, Severity::High, "relay_transport"@),
        (InvariantId::EntryNodeBlindToDestination, "CONNECT target in relay protocol"@, Severity::High, "control_channel"@),
        (InvariantId::EntryNodeBlindToDestination, "Traffic analysis correlation"@, Severity::Medium, "async_tunnel"@),
        (InvariantId::ExitNodeBlindToSource, "Source IP forwarded in headers"@, Severity::High, "real_transport"@),
        (InvariantId::ExitNodeBlindToSource, "Relay chain metadata exposure"@, Severity::Medium, "relay_transport"@),
        (InvariantId::ExitNodeBlindToSource, "Session correlation via timing"@, Severity::Low, "tunnel_stats"@),
        (InvariantId::LoggingOptIn, "Default println! statements"@, Severity::Medium, "real_proxy"@),
        (InvariantId::LoggingOptIn, "Error logging with sensitive data"@, Severity::High, "real_transport"@),
        (InvariantId::LoggingOptIn, "Debug logs in release builds"@, Severity::Low, "logging"@),
    ]
}

/// The surfaces of a list that belong to the invariant `id`, in order.
pub open spec fn spec_for_invariant(s: Seq<AttackSurface>, id: InvariantId) -> Seq<AttackSurface>
    decreases s.len(),
{
    if s.len() == 0 {
        s
    } else if s.last().invariant_id == id {
        spec_for_invariant(s.drop_last(), id).push(s.last())
    } else {
        spec_for_invariant(s.drop_last(), id)
    }
}

/// The surfaces of a list that are of high severity, in order.
pub open spec fn spec_high_severity(s: Seq<AttackSurface>) -> Seq<AttackSurface>
    decreases s.len(),
{
    if s.len() == 0 {
        s
    } else if s.last().severity == Severity::High {
        spec_high_severity(s.drop_last()).push(s.last())
    } else {
        spec_high_severity(s.drop_last())
    }
}

/// The surfaces of a list that belong to the component whose name has the
/// UTF-8 bytes `component`, in order.
pub open spec fn spec_for_component(s: Seq<AttackSurface>, component: Seq<u8>) -> Seq<
    AttackSurface,
>
    decreases s.len(),
{
    if s.len() == 0 {
        s
    } else if encode_utf8(s.last().component@) == component {
        spec_for_component(s.drop_last(), component).push(s.last())
    } else {
        spec_for_component(s.drop_last(), component)
    }
}

/// The list of known attack surfaces.
pub struct AttackSurfaceEnumeration {
    pub surfaces: Vec<AttackSurface>,
}

impl AttackSurfaceEnumeration {
    /// The known attack surfaces.
    pub fn new() -> (all: AttackSurfaceEnumeration)
        ensures
            spec_surfaces(all.surfaces@) == spec_known_surfaces(),
    {
        let surfaces = vec![
            AttackSurface {
                invariant_id: InvariantId::DnsResolutionAtExitOnly,
                violation_path: "OS resolver fallback in DoH failure".to_string(),
                severity: Severity::High,
                component: "dns_resolver".to_string(),
            },
            AttackSurface {
                invariant_id: InvariantId::DnsResolutionAtExitOnly,
                violation_path: "System DNS via ToSocketAddrs".to_string(),
                severity: Severity::High,
                component: "transport".to_string(),
            },
            AttackSurface {
                invariant_id: InvariantId::DnsResolutionAtExitOnly,
                violation_path: "Browser DNS prefetch bypass".to_string(),
                severity: Severity::Medium,
                component: "proxy".to_string(),
            },
            AttackSurface {
                invariant_id: InvariantId::NoSourceDestinationCorrelation,
                violation_path: "Proxy logs client IP with CONNECT target".to_string(),
                severity: Severity::High,
                component: "real_proxy".to_string(),
            },
            AttackSurface {
                invariant_id: InvariantId::NoSourceDestinationCorrelation,
                violation_path: "Transport stores both source and destination".to_string(),
                severity: Severity::High,
                component: "real_transport".to_string(),
            },
            AttackSurface {
                invariant_id: InvariantId::NoSourceDestinationCorrelation,
                violation_path: "Session state correlation".to_string(),
                severity: Severity::Medium,
                component: "session".to_string(),
            },
            AttackSurface {
                invariant_id: InvariantId::IspTrafficEncrypted,
                violation_path: "Plaintext CONNECT before TLS".to_string(),
                severity: Severity::High,
                component: "relay_transport".to_string(),
            },
            AttackSurface {
                invariant_id: InvariantId::IspTrafficEncrypted,
                violation_path: "DNS queries in plaintext".to_string(),
                severity: Severity::High,
                component: "dns_resolver".to_string(),
            },
            AttackSurface {
                invariant_id: InvariantId::IspTrafficEncrypted,
                violation_path: "Control channel metadata leak".to_string(),
                severity: Severity::Medium,
                component: "control_channel".to_string(),
            },
            AttackSurface {
                invariant_id: InvariantId::EntryNodeBlindToDestination,
                violation_path: "SNI visible to entry relay".to_string(),
                severity: Severity::High,
                component: "relay_transport".to_string(),
            },
            AttackSurface {
                invariant_id: InvariantId::EntryNodeBlindToDestination,
                violation_path: "CONNECT target in relay protocol".to_string(),
                severity: Severity::High,
                component: "control_channel".to_string(),
            },
            AttackSurface {
                invariant_id: InvariantId::EntryNodeBlindToDestination,
                violation_path: "Traffic analysis correlation".to_string(),
                severity: Severity::Medium,
                component: "async_tunnel".to_string(),
            },
            AttackSurface {
                invariant_id: InvariantId::ExitNodeBlindToSource,
                violation_path: "Source IP forwarded in headers".to_string(),
                severity: Severity::High,
                component: "real_transport".to_string(),
            },
            AttackSurface {
                invariant_id: InvariantId::ExitNodeBlindToSource,
                violation_path: "Relay chain metadata exposure".to_string(),
                severity: Severity::Medium,
                component: "relay_transport".to_string(),
            },
            AttackSurface {
                invariant_id: InvariantId::ExitNodeBlindToSource,
                violation_path: "Session correlation via timing".to_string(),
                severity: Severity::Low,
                component: "tunnel_stats".to_string(),
            },
            AttackSurface {
                invariant_id: InvariantId::LoggingOptIn,
                violation_path: "Default println! statements".to_string(),
                severity: Severity::Medium,
                component: "real_proxy".to_string(),
            },
            AttackSurface {
                invariant_id: InvariantId::LoggingOptIn,
                violation_path: "Error logging with sensitive data".to_string(),
                severity: Severity::High,
                component: "real_transport".to_string(),
            },
            AttackSurface {
                invariant_id: InvariantId::LoggingOptIn,
                violation_path: "Debug logs in release builds".to_string(),
                severity: Severity::Low,
                component: "logging".to_string(),
            },
        ];
        proof {
            assert(spec_surfaces(surfaces@) =~= spec_known_surfaces());
        }
        AttackSurfaceEnumeration { surfaces }
    }

    /// The surfaces of the invariant `invariant_id`, in the order of the list.
    pub fn get_surfaces_for_invariant(&self, invariant_id: &InvariantId) -> (found: Vec<&AttackSurface>)
        ensures
            spec_selected(found@) == spec_for_invariant(self.surfaces@, *invariant_id),
    {
        let mut found: Vec<&AttackSurface> = Vec::new();
        let mut i: usize = 0;
        proof {
            assert(spec_selected(found@) =~= spec_for_invariant(self.surfaces@.take(0), *invariant_id));
        }
        while i < self.surfaces.len()
            invariant
                0 <= i <= self.surfaces@.len(),
                spec_selected(found@) == spec_for_invariant(self.surfaces@.take(i as int), *invariant_id),
            decreases self.surfaces@.len() - i,
        {
            let ghost before = found@;
            let ghost upto = self.surfaces@.take(i as int + 1);
            proof {
                assert(upto.drop_last() =~= self.surfaces@.take(i as int));
                assert(upto.last() == self.surfaces@[i as int]);
            }
            if self.surfaces[i].invariant_id == *invariant_id {
                found.push(&self.surfaces[i]);
                proof {
                    assert(spec_selected(found@) =~= spec_selected(before).push(
                        self.surfaces@[i as int],
                    ));
                }
            }
            i += 1;
        }
        proof {
            assert(self.surfaces@.take(i as int) =~= self.surfaces@);
        }
        found
    }

    /// The surfaces of high severity, in the order of the list.
    pub fn get_high_severity_surfaces(&self) -> (found: Vec<&AttackSurface>)
        ensures
            spec_selected(found@) == spec_high_severity(self.surfaces@),
    {
        let mut found: Vec<&AttackSurface> = Vec::new();
        let mut i: usize = 0;
        proof {
            assert(spec_selected(found@) =~= spec_high_severity(self.surfaces@.take(0)));
        }
        while i < self.surfaces.len()
            invariant
                0 <= i <= self.surfaces@.len(),
                spec_selected(found@) == spec_high_severity(self.surfaces@.take(i as int)),
            decreases self.surfaces@.len() - i,
        {
            let ghost before = found@;
            let ghost upto = self.surfaces@.take(i as int + 1);
            proof {
                assert(upto.drop_last() =~= self.surfaces@.take(i as int));
                assert(upto.last() == self.surfaces@[i as int]);
            }
            if self.surfaces[i].severity == Severity::High {
                found.push(&self.surfaces[i]);
                proof {
                    assert(spec_selected(found@) =~= spec_selected(before).push(
                        self.surfaces@[i as int],
                    ));
                }
            }
            i += 1;
        }
        proof {
            assert(self.surfaces@.take(i as int) =~= self.surfaces@);
        }
        found
    }

    /// The surfaces of the component `component`, in the order of the list.
    pub fn get_surfaces_for_component(&self, component: &str) -> (found: Vec<&AttackSurface>)
        ensures
            spec_selected(found@) == spec_for_component(self.surfaces@, component.spec_bytes()),
    {
        let mut found: Vec<&AttackSurface> = Vec::new();
        let mut i: usize = 0;
        proof {
            assert(spec_selected(found@) =~= spec_for_component(self.surfaces@.take(0), component.spec_bytes()));
        }
        while i < self.surfaces.len()
            invariant
                0 <= i <= self.surfaces@.len(),
                spec_selected(found@) == spec_for_component(self.surfaces@.take(i as int), component.spec_bytes()),
            decreases self.surfaces@.len() - i,
        {
            let ghost before = found@;
            let ghost upto = self.surfaces@.take(i as int + 1);
            proof {
                assert(upto.drop_last() =~= self.surfaces@.take(i as int));
                assert(upto.last() == self.surfaces@[i as int]);
            }
            if bytes_eq(self.surfaces[i].component.as_str().as_bytes(), component.as_bytes()) {
                found.push(&self.surfaces[i]);
                proof {
                    assert(spec_selected(found@) =~= spec_selected(before).push(
                        self.surfaces@[i as int],
                    ));
                }
            }
            i += 1;
        }
        proof {
            assert(self.surfaces@.take(i as int) =~= self.surfaces@);
        }
        found
    }
}

impl Default for AttackSurfaceEnumeration {
    /// The known attack surfaces.
    fn default() -> (all: AttackSurfaceEnumeration)
        ensures
            spec_surfaces(all.surfaces@) == spec_known_surfaces(),
    {
        AttackSurfaceEnumeration::new()
    }
}

} // verus!
