use anon_pipeline::anonymity_protocol::AnonymityProtocolEngine;
use anon_pipeline::attack_surfaces::{AttackSurfaceEnumeration, Severity};
use anon_pipeline::client::LogLevel;
use anon_pipeline::config::{DnsPolicy, LeakDetection, ResolutionLocation};
use anon_pipeline::control::ControlMessage;
use anon_pipeline::control_channel::ControlChannel;
use anon_pipeline::control_plane::{ControlError, ControlMessageHandler, EncryptedRoute, SessionId};
use anon_pipeline::crypto_transport_design::InvariantCompliance;
use anon_pipeline::data_plane::{
    DataError, EncryptedPayload, ExitZoneDnsResolver, PayloadDecryptor, TunnelManager,
};
use anon_pipeline::dns::{DnsQuery, QueryType, RealDnsResolver, ResolverType};
use anon_pipeline::frame::{FrameEncoder, FrameType};
use anon_pipeline::guard::{enforce_observability_guards, find_forbidden_token};
use anon_pipeline::key_management::{
    EntryZoneKeys, KeyError, LocalZoneKeys, SecureKeyStorage,
};
use anon_pipeline::observability::{
    record_bytes_sent_coarse, snapshot, ObservabilityLevel, ObservabilityState,
};
use anon_pipeline::prohibited_capabilities::{LoggingCapability, UpstreamMessage};
use anon_pipeline::proxy_policy::build_connect_metadata;
use anon_pipeline::threat_invariants::{
    InvariantContext, InvariantId, InvariantViolation, ThreatInvariants,
};
use anon_pipeline::trust_boundaries::{
    DestinationHostname, EncryptedPayload as ZonePayload, EntryZoneData, ExitZoneData,
    ExternalZoneData, LocalZoneData, PlaintextPayload, RelayMetadata, RelayZoneData,
    SessionId as ZoneSessionId, SourceIp, TransitionError, TrustBoundary, TrustZone,
    ZoneTransition,
};
use anon_pipeline::zone_interfaces::{
    EntryZoneInterface, ExitZoneInterface, LocalZoneInterface, RelayZoneInterface,
};

struct Everything {
    source: SourceIp,
    destination: DestinationHostname,
    plaintext: PlaintextPayload,
    encrypted: ZonePayload,
    hop: RelayMetadata,
    session: ZoneSessionId,
}

fn everything() -> Everything {
    Everything {
        source: SourceIp("192.0.2.1".to_string()),
        destination: DestinationHostname("example.com".to_string()),
        plaintext: PlaintextPayload(vec![1, 2, 3]),
        encrypted: ZonePayload(vec![9, 9]),
        hop: RelayMetadata { hop_count: 1, encrypted_routing: vec![7] },
        session: ZoneSessionId("s".to_string()),
    }
}

impl LocalZoneData for Everything {
    fn source_ip(&self) -> &SourceIp {
        &self.source
    }
    fn destination_hostname(&self) -> &DestinationHostname {
        &self.destination
    }
    fn plaintext_payload(&self) -> &PlaintextPayload {
        &self.plaintext
    }
    fn session_id(&self) -> &ZoneSessionId {
        &self.session
    }
}

impl EntryZoneData for Everything {
    fn source_ip(&self) -> &SourceIp {
        &self.source
    }
    fn encrypted_payload(&self) -> &ZonePayload {
        &self.encrypted
    }
    fn next_hop_metadata(&self) -> &RelayMetadata {
        &self.hop
    }
    fn session_id(&self) -> &ZoneSessionId {
        &self.session
    }
}

impl RelayZoneData for Everything {
    fn encrypted_payload(&self) -> &ZonePayload {
        &self.encrypted
    }
    fn previous_hop_metadata(&self) -> &RelayMetadata {
        &self.hop
    }
    fn next_hop_metadata(&self) -> &RelayMetadata {
        &self.hop
    }
}

impl ExitZoneData for Everything {
    fn destination_hostname(&self) -> &DestinationHostname {
        &self.destination
    }
    fn plaintext_payload(&self) -> &PlaintextPayload {
        &self.plaintext
    }
    fn previous_hop_metadata(&self) -> &RelayMetadata {
        &self.hop
    }
}

impl ExternalZoneData for Everything {
    fn plaintext_payload(&self) -> &PlaintextPayload {
        &self.plaintext
    }
}

fn context(name: &str) -> InvariantContext {
    InvariantContext {
        component_name: name.to_string(),
        has_source_ip: false,
        has_destination_hostname: false,
        traffic_encrypted: true,
        dns_resolution_attempted: false,
        logging_enabled: false,
    }
}

fn dns_violations(name: &str) -> usize {
    let mut c = context(name);
    c.dns_resolution_attempted = true;
    ThreatInvariants::new()
        .check_context(&c)
        .iter()
        .filter(|v| matches!(v, InvariantViolation::DnsResolutionAtExitOnly { .. }))
        .count()
}

#[test]
fn test_dns_resolution_outside_exit_is_impossible() {
    let resolver = ExitZoneDnsResolver::new().unwrap();
    assert!(resolver.may_resolve(), "Verify DNS resolution only works in Exit zone");
    assert!(ExitZoneInterface::new().unwrap().may_resolve_dns());
    assert_eq!(dns_violations("exit_node"), 0);
    assert_eq!(dns_violations("local_proxy"), 1);
}

#[test]
fn test_entry_node_dns_resolution_blocked() {
    assert_eq!(dns_violations("entry_node"), 1, "Verify entry node cannot resolve hostnames");
    assert_eq!(context("entry_node").dns_resolution_attempted, false);
    assert_eq!(ThreatInvariants::new().check_context(&context("entry_node")).len(), 0);
}

#[test]
fn test_relay_node_dns_resolution_blocked() {
    assert_eq!(dns_violations("relay_node"), 1, "Verify relay node cannot resolve hostnames");
    let mut c = context("relay_node");
    c.dns_resolution_attempted = true;
    let violations = ThreatInvariants::new().check_context(&c);
    match &violations[0] {
        InvariantViolation::DnsResolutionAtExitOnly { component, attempted_hostname } => {
            assert_eq!(component, "relay_node");
            assert_eq!(attempted_hostname, "detected");
        }
        other => panic!("unexpected violation {:?}", other),
    }
}

#[test]
fn test_entry_node_cannot_access_destination() {
    let entry = EntryZoneInterface::new();
    assert!(
        !entry.has_destination_hostname(),
        "Verify entry node has no access to destination data"
    );
    assert!(entry.has_source_ip());
}

#[test]
fn test_exit_node_cannot_access_source_ip() {
    let exit = ExitZoneInterface::new().unwrap();
    assert!(!exit.has_source_ip(), "Verify exit node has no access to source IP data");
    assert!(exit.has_destination_hostname());
}

#[test]
fn test_relay_node_sees_neither_source_nor_destination() {
    let relay = RelayZoneInterface::new();
    assert!(
        !relay.has_source_ip() && !relay.has_destination_hostname(),
        "Verify relay node cannot access source or destination"
    );
    let forwarded = relay
        .relay_payload(&SessionId([0u8; 32]), EncryptedPayload(vec![1, 2, 3]))
        .unwrap();
    assert_eq!(forwarded.0, vec![1, 2, 3]);
}

#[test]
fn test_single_component_cannot_correlate_source_destination() {
    let mut c = context("proxy");
    c.has_source_ip = true;
    c.has_destination_hostname = true;
    let violations = ThreatInvariants::new().check_context(&c);
    assert_eq!(violations.len(), 1, "Verify no component can correlate source and destination");
    assert!(matches!(
        violations[0],
        InvariantViolation::NoSourceDestinationCorrelation {
            has_source_ip: true,
            has_destination: true,
            ..
        }
    ));
    c.has_destination_hostname = false;
    assert!(ThreatInvariants::new().check_context(&c).is_empty());
    let entry = EntryZoneInterface::new();
    let relay = RelayZoneInterface::new();
    let exit = ExitZoneInterface::new().unwrap();
    assert!(!(entry.has_source_ip() && entry.has_destination_hostname()));
    assert!(!(relay.has_source_ip() && relay.has_destination_hostname()));
    assert!(!(exit.has_source_ip() && exit.has_destination_hostname()));
}

#[test]
fn test_isp_facing_traffic_always_encrypted() {
    let mut c = context("isp_facing_transport");
    c.traffic_encrypted = false;
    let violations = ThreatInvariants::new().check_context(&c);
    assert_eq!(violations.len(), 1, "Verify no plaintext leaves local machine");
    assert!(matches!(
        violations[0],
        InvariantViolation::IspTrafficEncrypted { plaintext_detected: true, .. }
    ));
    c.traffic_encrypted = true;
    assert!(ThreatInvariants::new().check_context(&c).is_empty());
    let mut internal = context("internal_queue");
    internal.traffic_encrypted = false;
    assert!(ThreatInvariants::new().check_context(&internal).is_empty());
}

#[test]
fn test_dns_queries_never_plaintext_to_isp() {
    let strict = RealDnsResolver::new(DnsPolicy {
        resolution_location: ResolutionLocation::Remote,
        leak_detection: LeakDetection::Strict,
    });
    let query = |d: &str| DnsQuery { domain: d.to_string(), query_type: QueryType::A };
    let local = strict.resolve_local(query("example.com"));
    assert!(
        strict.validate_resolution(&local).is_err(),
        "Verify DNS queries are encrypted or go through DoH"
    );
    let remote = strict.resolve_with_policy(query("example.com"));
    assert_eq!(remote.resolved_via, ResolverType::Remote);
    assert!(strict.validate_resolution(&remote).is_ok());
    let warn = RealDnsResolver::new(DnsPolicy {
        resolution_location: ResolutionLocation::Remote,
        leak_detection: LeakDetection::Warn,
    });
    assert!(warn.validate_resolution(&local).is_ok());
    assert!(warn.warns_of(&local));
    assert!(!warn.warns_of(&remote));
}

#[test]
fn test_control_channel_metadata_encrypted() {
    let channel = ControlChannel::new();
    let encrypted = channel.encrypt_routing_info("example.com", 443);
    let plain = b"example.com:443".to_vec();
    assert_eq!(encrypted.len(), plain.len(), "Verify control channel does not leak metadata");
    assert_ne!(encrypted, plain);
    let unmasked: Vec<u8> = encrypted.iter().map(|b| b ^ 0x42).collect();
    assert_eq!(unmasked, plain);
    assert_eq!(channel.control_header(15), b"CTRL 15 ROUTE\r\n".to_vec());
    assert!(channel.response_complete(b"CTRL OK\r\n"));
    assert!(!channel.response_complete(b"CTRL OK"));
    assert!(channel.response_accepts(b"CTRL OK\r\n"));
    assert!(!channel.response_accepts(b"CTRL NO\r\n"));
}

#[test]
fn test_entry_node_blind_to_final_destination() {
    assert!(
        !EntryZoneInterface::new().has_destination_hostname(),
        "Verify entry node cannot see final destination"
    );
    let decryptor = PayloadDecryptor::new(TrustZone::Entry);
    let result = decryptor.decrypt_to_plaintext(&SessionId([0u8; 32]), &EncryptedPayload(vec![1]));
    assert_eq!(result.err(), Some(DataError::PlaintextNotAllowed));
    let at_exit = PayloadDecryptor::new(TrustZone::Exit)
        .decrypt_to_plaintext(&SessionId([0u8; 32]), &EncryptedPayload(vec![1]))
        .unwrap();
    assert_eq!(at_exit.0, vec![1]);
}

#[test]
fn test_sni_not_visible_to_entry_relay() {
    let surfaces = AttackSurfaceEnumeration::new();
    let found = surfaces.get_surfaces_for_invariant(&InvariantId::EntryNodeBlindToDestination);
    assert_eq!(found.len(), 3, "Verify SNI is encrypted before reaching entry relay");
    assert_eq!(found[0].violation_path, "SNI visible to entry relay");
    assert_eq!(found[0].severity, Severity::High);
    assert_eq!(found[0].component, "relay_transport");
    assert!(InvariantCompliance::validate().entry_blind_to_destination);
}

#[test]
fn test_connect_target_not_in_entry_protocol() {
    let open = ControlMessage::Open {
        conn_id: 1,
        target_host: "example.com".to_string(),
        target_port: 443,
    };
    let mut wire = Vec::new();
    FrameEncoder::encode_frame(&mut wire, 2, FrameType::Control, &open.encode()).unwrap();
    let mut engine = AnonymityProtocolEngine::new();
    let delivered = engine.on_transport_bytes(&wire);
    assert!(delivered.is_empty(), "Verify CONNECT targets are encrypted in relay protocol");
    assert_eq!(engine.protocol_violations(), 0);
    engine.enqueue(vec![1, 2, 3]);
    let frames = engine.drain_batch(4);
    assert_eq!(frames, vec![vec![0, 0, 0, 5, 2, 2, 1, 2, 3]]);
}

#[test]
fn test_exit_node_blind_to_client_source() {
    assert!(
        !ExitZoneInterface::new().unwrap().has_source_ip(),
        "Verify exit node cannot see client source IP"
    );
    let delivered = ExitZoneInterface::new()
        .unwrap()
        .terminate_tunnel(&SessionId([0u8; 32]), EncryptedPayload(vec![4, 5]))
        .unwrap();
    assert_eq!(delivered.0, vec![4, 5]);
}

#[test]
fn test_source_ip_not_forwarded_in_headers() {
    let metadata = build_connect_metadata(
        "CONNECT example.com:443 HTTP/1.1\r\nHost: example.com\r\n\r\n",
        "example.com",
        443,
    );
    assert_eq!(
        metadata.headers(),
        &vec![("host".to_string(), "example.com".to_string())],
        "Verify source IP is not included in forwarded headers"
    );
    assert_eq!(metadata.header_value(b"x-forwarded-for"), None);
    assert_eq!(metadata.header_value(b"forwarded"), None);
}

#[test]
fn test_relay_chain_metadata_not_exposed_to_exit() {
    let at_relay = TrustBoundary::new(TrustZone::Relay, everything());
    assert!(
        at_relay.as_exit().is_none(),
        "Verify exit node cannot see relay chain information"
    );
    assert!(at_relay.as_relay().is_some());
    assert!(at_relay.as_external().is_none());
}

#[test]
fn test_logging_disabled_by_default() {
    assert!(!LogLevel::Info.is_logged(), "Verify logging requires explicit opt-in");
    assert!(LogLevel::Error.is_logged());
    assert!(ThreatInvariants::new().is_enabled(&InvariantId::LoggingOptIn));
    assert!(!anon_pipeline::traffic_shaping::PHASE_5_ENABLED);
}

#[test]
fn test_no_implicit_sensitive_data_logging() {
    let mut c = context("real_proxy");
    c.logging_enabled = true;
    let violations = ThreatInvariants::new().check_context(&c);
    assert_eq!(
        violations.len(),
        1,
        "Verify sensitive data cannot be logged without explicit consent"
    );
    assert!(matches!(
        violations[0],
        InvariantViolation::LoggingOptIn { implicit_logging: true, .. }
    ));
    let mut explicit = context("explicit_logging");
    explicit.logging_enabled = true;
    assert!(ThreatInvariants::new().check_context(&explicit).is_empty());
}

#[test]
fn test_debug_logs_excluded_from_release() {
    assert!(
        !LogLevel::Debug.is_logged() && !LogLevel::Trace.is_logged(),
        "Verify debug logs do not appear in release builds"
    );
    assert_eq!(LogLevel::Debug.rank(), 2);
    assert_eq!(LogLevel::Trace.rank(), 3);
}

#[test]
fn test_error_logging_excludes_sensitive_data() {
    assert!(
        enforce_observability_guards("fn record(class: u8) { COUNTS[0] += 1; }"),
        "Verify error messages do not contain sensitive information"
    );
    assert!(!enforce_observability_guards("use std::net::IpAddr;"));
    assert_eq!(find_forbidden_token(b"let t = Instant::now();"), Some(6));
    let mut state = ObservabilityState::new(ObservabilityLevel::OBS_DEV);
    record_bytes_sent_coarse(&mut state, 1500);
    let snap = snapshot(&state).unwrap();
    assert_eq!(snap.bytes_sent_coarse.iter().sum::<u64>(), 1);
    assert_eq!(snap.bytes_sent_coarse[11], 1);
}

#[test]
fn test_threat_invariant_context_validation() {
    let c = InvariantContext {
        component_name: "isp_facing_entry".to_string(),
        has_source_ip: true,
        has_destination_hostname: true,
        traffic_encrypted: false,
        dns_resolution_attempted: true,
        logging_enabled: true,
    };
    let violations = ThreatInvariants::new().check_context(&c);
    assert_eq!(violations.len(), 4, "Verify InvariantContext detects all violation types");
    assert!(matches!(violations[0], InvariantViolation::DnsResolutionAtExitOnly { .. }));
    assert!(matches!(violations[1], InvariantViolation::NoSourceDestinationCorrelation { .. }));
    assert!(matches!(violations[2], InvariantViolation::IspTrafficEncrypted { .. }));
    assert!(matches!(violations[3], InvariantViolation::LoggingOptIn { .. }));
    let invariants = ThreatInvariants::new();
    let entry = invariants.get_invariant(&InvariantId::IspTrafficEncrypted).unwrap();
    assert_eq!(
        entry.description,
        "ISP-facing traffic must be encrypted before leaving local machine"
    );
    assert!(entry.enabled);
}

#[test]
fn test_trust_boundary_enforcement() {
    let local = TrustBoundary::new(TrustZone::Local, everything());
    assert_eq!(*local.zone(), TrustZone::Local);
    assert!(
        local.as_local().is_some(),
        "Verify trust boundaries block unauthorized data access"
    );
    assert!(local.as_entry().is_none());
    assert!(local.as_relay().is_none());
    assert!(local.as_exit().is_none());
    assert!(local.as_external().is_none());
    assert_eq!(local.as_local().unwrap().source.0, "192.0.2.1");
    let external = TrustBoundary::new(TrustZone::External, everything());
    assert!(external.as_external().is_some());
    assert!(external.as_local().is_none());
}

#[test]
fn test_zone_transition_preserves_invariants() {
    let local = TrustBoundary::new(TrustZone::Local, everything());
    let entry = ZoneTransition::local_to_entry(local, everything()).ok().unwrap();
    assert_eq!(
        *entry.zone(),
        TrustZone::Entry,
        "Verify zone transitions do not violate invariants"
    );
    let relay = ZoneTransition::entry_to_relay(entry, everything()).ok().unwrap();
    assert_eq!(*relay.zone(), TrustZone::Relay);
    let exit = ZoneTransition::relay_to_exit(relay, everything()).ok().unwrap();
    assert_eq!(*exit.zone(), TrustZone::Exit);
    let external = ZoneTransition::exit_to_external(exit, everything()).ok().unwrap();
    assert_eq!(*external.zone(), TrustZone::External);
    let wrong = TrustBoundary::new(TrustZone::Relay, everything());
    assert_eq!(
        ZoneTransition::local_to_entry(wrong, everything()).err(),
        Some(TransitionError::InvalidZoneTransition)
    );
    let wrong = TrustBoundary::new(TrustZone::Local, everything());
    assert!(ZoneTransition::exit_to_external(wrong, everything()).is_err());
}

#[test]
fn test_prohibited_capabilities_compile_errors() {
    assert!(
        LoggingCapability::explicitly_enabled().is_enabled(),
        "Verify prohibited APIs cause compilation failures"
    );
    let _message = UpstreamMessage::new(vec![1, 2, 3]);
    let mut handler = ControlMessageHandler::new(TrustZone::Exit);
    assert_eq!(
        handler.handle_session_init(EncryptedRoute(vec![])).err(),
        Some(ControlError::InvalidZone)
    );
    assert_eq!(
        handler.handle_key_exchange(SessionId([1u8; 32]), vec![]).err(),
        Some(ControlError::InvalidZone)
    );
    assert!(handler.handle_route_setup(vec![]).is_ok());
}

#[test]
fn test_high_severity_attack_surfaces_blocked() {
    let surfaces = AttackSurfaceEnumeration::new();
    assert_eq!(surfaces.surfaces.len(), 18);
    let high = surfaces.get_high_severity_surfaces();
    assert_eq!(high.len(), 10, "Verify high-severity attack vectors are prevented");
    assert!(high.iter().all(|s| s.severity == Severity::High));
    assert_eq!(surfaces.get_surfaces_for_component("real_transport").len(), 3);
    assert_eq!(surfaces.get_surfaces_for_component("nowhere").len(), 0);
    let compliance = InvariantCompliance::validate();
    assert!(compliance.dns_at_exit_only && compliance.no_source_destination_correlation);
    assert!(compliance.isp_traffic_encrypted && compliance.exit_blind_to_source);
    assert!(compliance.no_default_logging);
}

#[test]
fn test_component_isolation_prevents_correlation() {
    let mut storage = SecureKeyStorage::new(TrustZone::Entry);
    let local_keys = LocalZoneKeys {
        session_private_key: [0u8; 32],
        all_hop_keys: vec![],
        route_encryption_key: [0u8; 32],
    };
    assert_eq!(
        storage.store_local_keys(local_keys).err(),
        Some(KeyError::InvalidZone),
        "Verify components cannot correlate sensitive data"
    );
    assert!(!storage.holds(TrustZone::Local));
    let entry_keys = EntryZoneKeys {
        hop_decryption_key: [1u8; 32],
        next_hop_encryption_key: [2u8; 32],
        session_authentication_key: [3u8; 32],
    };
    assert!(storage.store_entry_keys(entry_keys).is_ok());
    assert!(storage.holds(TrustZone::Entry));
    assert!(storage.clear_all_keys().is_ok());
    assert!(!storage.holds(TrustZone::Entry));
}

#[test]
fn test_network_metadata_never_accessible() {
    let local = TunnelManager::new(TrustZone::Local);
    let result = local.process_inbound(&SessionId([0u8; 32]), EncryptedPayload(vec![1]));
    assert_eq!(
        result.err(),
        Some(DataError::InvalidZone),
        "Verify network metadata cannot be accessed directly"
    );
    let mut local_zone = LocalZoneInterface::new();
    assert!(local_zone.has_source_ip() && local_zone.has_destination_hostname());
    let session = local_zone
        .initiate_tunnel(DestinationHostname("example.com".to_string()), EncryptedRoute(vec![]))
        .unwrap();
    let sent = local_zone.send_data(&session, PlaintextPayload(vec![8, 9])).unwrap();
    assert_eq!(sent.0, vec![8, 9]);
}
