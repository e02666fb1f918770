use anon_pipeline::client::{Client, ProxyConfig, ProxyRelay, ProxyType};
use anon_pipeline::config::{
    Capability, CapabilityPolicy, ExecutionMode, LeakDetection, ProxyMode, ResolutionLocation,
    TransportKind, TunnelConfig,
};
use anon_pipeline::connection_mapping::{
    BrowserSocketId, ConnectionManager, ConnectionMapping, LogicalConnectionId,
};
use anon_pipeline::control_plane::{
    random, same_session, ControlError, EncryptedRoute, KeyExchanger, RouteNegotiator,
    SessionEstablisher, SessionId,
};
use anon_pipeline::crypto_transport_design::{ComponentList, TransportSequence};
use anon_pipeline::data_plane::{
    DataError, EncryptedPayload, HopForwarder, PayloadEncryptor, ProcessResult, TunnelManager,
};
use anon_pipeline::dns::{
    cache_entry_fresh, cache_ttl, DnsError, DnsPolicyViolation, DnsQuery, DnsResolver, QueryType,
    RealDnsResolver, ResolverType,
};
use anon_pipeline::anonymity_protocol::AnonymityProtocolEngine;
use anon_pipeline::attack_surfaces::AttackSurfaceEnumeration;
use anon_pipeline::config::DnsPolicy;
use anon_pipeline::connection_table::RelayMetrics;
use anon_pipeline::content_policy::RuleSet;
use anon_pipeline::control_channel::{relay_accepts, relay_connect_request, relay_response_complete};
use anon_pipeline::mixing::MixingPool;
use anon_pipeline::threat_invariants::ThreatInvariants;
use anon_pipeline::transport::CapabilityError;
use anon_pipeline::invariants::{LegacyToken, Phase9Token};
use anon_pipeline::key_management::{
    EphemeralKeyGenerator, ExitZoneKeys, HopKeyDeriver, KeyError, KeyRotator, RelayZoneKeys,
    SecureKeyStorage,
};
use anon_pipeline::control_plane::HopKey;
use anon_pipeline::threat_model::{phase_allows, PAYLOAD_VISIBLE, PHASE, SNI_VISIBLE};
use anon_pipeline::traffic_shaping::{
    bucket_for, get_metrics, initialize_traffic_shaping, shape_outbound_data, ConnectionState,
    TrafficShapingMetrics,
};
use anon_pipeline::transport::{
    copy_of, EncryptedTransport, FailingTransport, QuicTransport, SshTransport, TlsTransport,
    Transport, TransportError,
};
use anon_pipeline::transport_adapter::FakeTransportAdapter;
use anon_pipeline::trust_boundaries::TrustZone;
use anon_pipeline::tunnel_stats::{wrapping_sum, TunnelStats};

const ZONES: [TrustZone; 5] =
    [TrustZone::Local, TrustZone::Entry, TrustZone::Relay, TrustZone::Exit, TrustZone::External];

#[test]
fn educational_configuration_has_its_values() {
    let config = TunnelConfig::educational_ssh_socks();
    assert_eq!(config.transport.kind, TransportKind::Ssh);
    assert_eq!(config.transport.proxy_host, "relay.example.com");
    assert_eq!(config.transport.proxy_port, 22);
    assert_eq!(config.transport.target_host, "target.example.com");
    assert_eq!(config.transport.target_port, 443);
    assert_eq!(config.dns_policy.resolution_location, ResolutionLocation::Remote);
    assert_eq!(config.dns_policy.leak_detection, LeakDetection::Warn);
    assert_eq!(config.proxy_policy.mode, ProxyMode::Application);
    assert_eq!(config.proxy_policy.bind_address, "proxy-bind.placeholder");
    assert_eq!(config.proxy_policy.bind_port, 8080);
    assert!(config.proxy_policy.authentication.is_none());
    assert!(!config.proxy_policy.content_policy_enabled);
    assert!(config.proxy_policy.content_policy_rules.is_none());
    let policy = CapabilityPolicy {
        execution_mode: ExecutionMode::Conceptual,
        allowed_capabilities: vec![Capability::NoNetworking],
    };
    assert!(policy.allows(Capability::NoNetworking));
    assert!(!policy.allows(Capability::RealNetworking));
}

#[test]
fn design_tables_have_their_entries() {
    let components = ComponentList::new();
    assert_eq!(
        components.control_plane,
        vec!["SessionEstablisher", "KeyExchanger", "RouteNegotiator", "ControlMessageHandler"]
    );
    assert_eq!(components.data_plane[3], "TunnelManager");
    assert_eq!(components.key_management[0], "EphemeralKeyGenerator");
    assert_eq!(components.zone_interfaces.len(), 4);
    let sequence = TransportSequence::new();
    assert_eq!(sequence.session_establishment.len(), 3);
    assert_eq!(sequence.data_forwarding.len(), 3);
    assert_eq!(sequence.dns_resolution.len(), 2);
    assert_eq!(sequence.session_teardown.len(), 2);
    let step = &sequence.session_establishment[1];
    assert_eq!(step.step_number, 2);
    assert_eq!((step.source_zone, step.target_zone), ("Entry", "Relay"));
    assert_eq!(step.message_type, "KeyExchange");
    assert_eq!(step.data_visibility, vec!["encrypted_key", "hop_index"]);
    assert_eq!(step.key_operations, vec!["decrypt_layer", "derive_next_key"]);
    assert_eq!(sequence.dns_resolution[0].key_operations, vec!["decrypt_hostname", "resolve_dns"]);
    assert_eq!(sequence.session_teardown[1].data_visibility, vec!["propagated_teardown"]);
}

#[test]
fn control_plane_is_gated_by_zone() {
    assert_eq!(random(), [0u8; 32]);
    assert!(same_session(&SessionId([1; 32]), &SessionId([1; 32])));
    let mut other = [1u8; 32];
    other[31] = 2;
    assert!(!same_session(&SessionId([1; 32]), &SessionId(other)));
    for zone in ZONES {
        let started = SessionEstablisher::new(zone).initiate_session(EncryptedRoute(vec![1]));
        assert_eq!(started.is_ok(), zone == TrustZone::Local);
        if let Err(e) = started {
            assert_eq!(e, ControlError::InvalidZone);
        }
        let route = RouteNegotiator::new(zone).setup_route(vec![]);
        assert_eq!(
            route.is_ok(),
            matches!(zone, TrustZone::Entry | TrustZone::Relay | TrustZone::Exit)
        );
        let mut exchanger = KeyExchanger::new(zone);
        let exchanged = exchanger.exchange_key(SessionId([7; 32]), vec![]);
        let may = matches!(zone, TrustZone::Entry | TrustZone::Relay);
        assert_eq!(exchanged.is_ok(), may);
        assert_eq!(exchanger.has_key(&SessionId([7; 32])), may);
        assert!(!exchanger.has_key(&SessionId([8; 32])));
        assert_eq!(exchanger.exchange_key(SessionId([7; 32]), vec![]).is_ok(), may);
    }
}

#[test]
fn data_plane_is_gated_by_zone() {
    let session = SessionId([0; 32]);
    for zone in ZONES {
        let encrypted = PayloadEncryptor::new(zone).encrypt_payload(&session, &[1, 2]);
        let may_encrypt = matches!(zone, TrustZone::Local | TrustZone::Entry | TrustZone::Relay);
        assert_eq!(encrypted.as_ref().map(|p| p.0.clone()).ok(), may_encrypt.then(|| vec![1, 2]));
        let forwarded = HopForwarder::new(zone).forward_to_next_hop(EncryptedPayload(vec![3]));
        assert_eq!(forwarded.is_ok(), matches!(zone, TrustZone::Entry | TrustZone::Relay));
        let manager = TunnelManager::new(zone);
        match manager.process_inbound(&session, EncryptedPayload(vec![4, 5])) {
            Ok(ProcessResult::Forward(p)) => {
                assert!(matches!(zone, TrustZone::Entry | TrustZone::Relay));
                assert_eq!(p.0, vec![4, 5]);
            }
            Ok(ProcessResult::Deliver(p)) => {
                assert_eq!(zone, TrustZone::Exit);
                assert_eq!(p.0, vec![4, 5]);
            }
            Err(e) => {
                assert!(matches!(zone, TrustZone::Local | TrustZone::External));
                assert_eq!(e, DataError::InvalidZone);
            }
        }
    }
}

#[test]
fn key_management_is_gated_by_zone() {
    for zone in ZONES {
        let generator = EphemeralKeyGenerator::new(zone);
        assert_eq!(generator.generate_session_keypair().is_ok(), zone == TrustZone::Local);
        assert_eq!(
            generator.generate_hop_key().is_ok(),
            matches!(zone, TrustZone::Entry | TrustZone::Relay | TrustZone::Exit)
        );
        assert_eq!(
            HopKeyDeriver::new(zone).derive_next_hop_key(&HopKey([0; 32])).is_ok(),
            matches!(zone, TrustZone::Entry | TrustZone::Relay)
        );
        let mut rotator = KeyRotator::new(zone);
        let rotated = rotator.rotate_session_keys(&SessionId([0; 32]));
        assert_eq!(rotated.is_ok(), zone != TrustZone::External);
        assert_eq!(rotator.rotations(), if zone != TrustZone::External { 1 } else { 0 });
        let mut storage = SecureKeyStorage::new(zone);
        let relay_keys = RelayZoneKeys {
            previous_hop_decryption_key: [0; 32],
            next_hop_encryption_key: [0; 32],
            layer_authentication_key: [0; 32],
        };
        assert_eq!(storage.store_relay_keys(relay_keys).is_ok(), zone == TrustZone::Relay);
        let exit_keys = ExitZoneKeys {
            final_decryption_key: [0; 32],
            dns_encryption_key: [0; 32],
            response_encryption_key: [0; 32],
        };
        let stored = storage.store_exit_keys(exit_keys);
        assert_eq!(stored.is_ok(), zone == TrustZone::Exit);
        if let Err(e) = stored {
            assert_eq!(e, KeyError::InvalidZone);
        }
        assert_eq!(storage.holds(TrustZone::Relay), zone == TrustZone::Relay);
        assert_eq!(storage.holds(TrustZone::Exit), zone == TrustZone::Exit);
        assert!(!storage.holds(TrustZone::External));
    }
}

#[test]
fn placeholder_transports_pass_bytes_through() {
    let ssh = SshTransport::new("h".to_string(), 22);
    let tls = TlsTransport::new("h".to_string(), 443);
    let quic = QuicTransport::new("h".to_string(), 443);
    assert_eq!(tls.establish_connection(), Ok(()));
    assert_eq!(quic.encrypt_data(&[1, 2]), Ok(vec![1, 2]));
    assert_eq!(ssh.decrypt_data(&[3]), Ok(vec![3]));
    let failing = FailingTransport;
    assert_eq!(failing.establish_connection(), Err(TransportError::ConnectionFailed));
    assert_eq!(failing.encrypt_data(&[1]), Err(TransportError::EncryptionFailed));
    assert_eq!(failing.decrypt_data(&[1]), Err(TransportError::DecryptionFailed));
    let mut any = Transport::Tls(tls);
    assert_eq!(any.establish_connection(), Ok(()));
    assert_eq!(any.encrypt_data(&[9]), Ok(vec![9]));
    assert_eq!(Transport::Ssh(ssh).decrypt_data(&[8, 7]), Ok(vec![8, 7]));
    assert_eq!(Transport::Quic(quic).encrypt_data(&[]), Ok(vec![]));
    assert_eq!(copy_of(&[1, 2, 3]), vec![1, 2, 3]);
}

#[test]
fn resolvers_record_where_names_are_resolved() {
    let local = DnsResolver::new_local();
    let remote = DnsResolver::new_remote("relay-dns.example".to_string());
    assert!(local.check_dns_leak(ResolverType::Remote));
    assert!(!local.check_dns_leak(ResolverType::Local));
    assert!(!remote.check_dns_leak(ResolverType::Remote));
    assert!(!remote.check_dns_leak(ResolverType::Local));
    let answer = remote
        .resolve(DnsQuery { domain: "example.com".to_string(), query_type: QueryType::AAAA })
        .unwrap();
    assert_eq!(answer.domain, "example.com");
    assert_eq!(answer.ip_address, None);
    assert_eq!(answer.resolved_via, ResolverType::Remote);
}

#[test]
fn clients_and_relays_keep_their_configuration() {
    let client = Client::new(ProxyConfig {
        proxy_type: ProxyType::HttpsConnect,
        address: "proxy.example".to_string(),
        port: 8443,
    });
    assert_eq!(client.proxy_type(), ProxyType::HttpsConnect);
    let _relay = ProxyRelay::new("0.0.0.0".to_string(), 1080, "dns.example".to_string());
    let _phase9 = Phase9Token::new();
    let _legacy = LegacyToken::new();
    assert_eq!(PHASE, 4);
    assert!(phase_allows(4) && phase_allows(0) && !phase_allows(5));
    assert!(SNI_VISIBLE && !PAYLOAD_VISIBLE);
}

#[test]
fn tunnel_counters_wrap_round() {
    let mut stats = TunnelStats::new();
    stats.tunnel_started();
    stats.tunnel_started();
    stats.tunnel_closed(10, 20);
    assert_eq!((stats.active_tunnels, stats.total_tunnels), (1, 2));
    assert_eq!((stats.bytes_in, stats.bytes_out), (10, 20));
    stats.tunnel_closed(u64::MAX, 1);
    stats.tunnel_closed(0, 0);
    assert_eq!(stats.active_tunnels, u32::MAX);
    assert_eq!(stats.bytes_in, 9);
    assert_eq!(stats.bytes_out, 21);
    stats.tunnel_started();
    assert_eq!(stats.active_tunnels, 0);
    assert_eq!(wrapping_sum(u64::MAX, u64::MAX), u64::MAX - 1);
    assert_eq!(wrapping_sum(3, 4), 7);
}

#[test]
fn connection_mapping_hands_out_fresh_ids() {
    let mut mapping: ConnectionMapping<FakeTransportAdapter> = ConnectionMapping::new();
    let first = mapping.create_mapping(FakeTransportAdapter::new()).unwrap();
    let second = mapping.create_mapping(FakeTransportAdapter::new()).unwrap();
    assert_eq!(first, (BrowserSocketId(1), LogicalConnectionId(1)));
    assert_eq!(second, (BrowserSocketId(2), LogicalConnectionId(2)));
    assert_eq!(mapping.get_logical_id(BrowserSocketId(2)), Some(LogicalConnectionId(2)));
    assert_eq!(mapping.get_socket_id(LogicalConnectionId(1)), Some(BrowserSocketId(1)));
    assert_eq!(mapping.get_logical_id(BrowserSocketId(3)), None);
    let mut active = mapping.get_active_mappings();
    active.sort_by_key(|p| p.0 .0);
    assert_eq!(active, vec![first, second]);
    mapping.on_browser_socket_closed(BrowserSocketId(1));
    assert_eq!(mapping.get_logical_id(BrowserSocketId(1)), None);
    assert_eq!(mapping.get_socket_id(LogicalConnectionId(1)), Some(BrowserSocketId(1)));
    mapping.protocol_close_connection(LogicalConnectionId(2));
    assert_eq!(mapping.get_logical_id(BrowserSocketId(2)), None);
    assert_eq!(mapping.get_socket_id(LogicalConnectionId(2)), None);
    mapping.protocol_close_connection(LogicalConnectionId(9));
    assert!(mapping.get_active_mappings().is_empty());
    let mut manager: ConnectionManager<FakeTransportAdapter> = ConnectionManager::new();
    let ids = manager.handle_new_browser_connection(FakeTransportAdapter::new()).unwrap();
    assert_eq!(ids, (BrowserSocketId(1), LogicalConnectionId(1)));
    manager.notify_browser_socket_closed(ids.0);
    manager.close_logical_connection(ids.1);
}

#[test]
fn traffic_shaping_pads_to_the_fixed_sizes() {
    initialize_traffic_shaping();
    assert_eq!(bucket_for(448), Some(512));
    assert_eq!(bucket_for(447), None);
    assert_eq!(bucket_for(512), Some(512));
    assert_eq!(bucket_for(513), None);
    assert_eq!(bucket_for(960), Some(1024));
    assert_eq!(bucket_for(1376), Some(1440));
    assert_eq!(bucket_for(1441), None);
    let mut state = ConnectionState::new();
    let mut metrics = TrafficShapingMetrics::new();
    let data = vec![7u8; 500];
    let shaped = shape_outbound_data(&data, &mut state, 1_000_000_000, &mut metrics);
    assert_eq!(shaped.len(), 512);
    assert_eq!(&shaped[..500], &data[..]);
    assert!(shaped[500..].iter().all(|b| *b == 0));
    assert_eq!(state.last_write, Some(1_000_000_000));
    assert!(state.smoothing_enabled);
    let mut now = 1_000_000_000;
    for expected_burst in 1..=4u32 {
        now += 1_000_000;
        let shaped = shape_outbound_data(&data, &mut state, now, &mut metrics);
        assert_eq!(shaped.len(), 512);
        assert_eq!(state.burst_count, expected_burst);
    }
    now += 1_999_999;
    let suppressed = shape_outbound_data(&data, &mut state, now, &mut metrics);
    assert_eq!(suppressed, data);
    assert_eq!(state.burst_count, 5);
    assert!(!state.smoothing_enabled);
    now += 2_000_000;
    let calm = shape_outbound_data(&data, &mut state, now, &mut metrics);
    assert_eq!(calm.len(), 512);
    assert_eq!(state.burst_count, 0);
    let unpadded = shape_outbound_data(&[1u8; 100], &mut state, now + 5_000_000, &mut metrics);
    assert_eq!(unpadded.len(), 100);
    let large = shape_outbound_data(&[1u8; 1441], &mut state, now + 9_000_000, &mut metrics);
    assert_eq!(large.len(), 1441);
    assert_eq!(
        get_metrics(&metrics),
        TrafficShapingMetrics {
            total_writes: 9,
            bucketed_writes: 6,
            padding_bytes_added: 72,
            padding_suppressed: 1,
            burst_suppressions: 1,
        }
    );
}

#[test]
fn failures_are_put_in_words() {
    assert_eq!(TransportError::ConnectionFailed.describe(), "Transport connection failed");
    assert_eq!(TransportError::EncryptionFailed.describe(), "Data encryption failed");
    assert_eq!(TransportError::DecryptionFailed.describe(), "Data decryption failed");
    assert_eq!(DnsError::ResolutionFailed.describe(), "DNS resolution failed");
    assert_eq!(DnsError::Timeout.describe(), "DNS query timeout");
    assert_eq!(DnsError::InvalidDomain.describe(), "Invalid domain name");
    assert_eq!(
        CapabilityError { required: Capability::RealNetworking }.describe(),
        "Required capability RealNetworking not available"
    );
    assert_eq!(
        DnsPolicyViolation::LeakDetected {
            query: "example.com".to_string(),
            attempted_resolver: ResolverType::Local,
        }
        .describe(),
        "DNS leak detected for query 'example.com' using Local resolver"
    );
    assert_eq!(
        DnsPolicyViolation::RemoteResolutionRequired { query: "a.b".to_string() }.describe(),
        "Remote DNS resolution required for query 'a.b' but local resolution attempted"
    );
}

#[test]
fn leaks_are_stopped_before_resolution_under_a_strict_policy() {
    let query = DnsQuery { domain: "example.com".to_string(), query_type: QueryType::CNAME };
    let policy = |location, detection| DnsPolicy {
        resolution_location: location,
        leak_detection: detection,
    };
    let strict = RealDnsResolver::new(policy(ResolutionLocation::Remote, LeakDetection::Strict));
    assert!(!strict.detect_local_resolution_attempt());
    assert!(strict.enforce_policy(&query, false).is_ok());
    assert!(matches!(
        strict.enforce_policy(&query, true),
        Err(DnsPolicyViolation::LeakDetected { attempted_resolver: ResolverType::Local, .. })
    ));
    let warn = RealDnsResolver::new(policy(ResolutionLocation::Remote, LeakDetection::Warn));
    assert!(warn.enforce_policy(&query, true).is_ok());
    let local = RealDnsResolver::new(policy(ResolutionLocation::Local, LeakDetection::Strict));
    assert!(local.enforce_policy(&query, true).is_ok());
    assert_eq!(local.resolution_location(), ResolutionLocation::Local);
    assert_eq!(cache_ttl(&[]), 300);
    assert_eq!(cache_ttl(&[600, 400]), 300);
    assert_eq!(cache_ttl(&[600, 20, 40]), 20);
    assert_eq!(cache_ttl(&[0]), 0);
    assert!(cache_entry_fresh(11, 10) && !cache_entry_fresh(10, 10) && !cache_entry_fresh(9, 10));
}

#[test]
fn relay_handshake_has_its_wire_form() {
    assert_eq!(relay_connect_request("192.0.2.7", 443), b"CONNECT 192.0.2.7:443 HTTP/1.1\r\n\r\n".to_vec());
    assert!(relay_response_complete(b"HTTP/1.1 200 OK\r\n\r\n"));
    assert!(!relay_response_complete(b"HTTP/1.1 200 OK\r\n"));
    assert!(!relay_response_complete(b"\r\n"));
    assert!(relay_accepts(b"HTTP/1.1 200 Connection Established\r\n\r\n"));
    assert!(!relay_accepts(b"HTTP/1.1 403 Forbidden\r\n\r\n"));
    assert!(!relay_accepts(b"HTTP/1.1 20"));
}

#[test]
fn defaults_are_the_empty_values() {
    let mut pool = MixingPool::default();
    assert_eq!(pool.drain_batch(3), Vec::<Vec<u8>>::new());
    let mut engine = AnonymityProtocolEngine::default();
    assert_eq!(engine.drain_batch(3), Vec::<Vec<u8>>::new());
    assert_eq!(engine.protocol_violations(), 0);
    assert_eq!(AttackSurfaceEnumeration::default().surfaces.len(), 18);
    assert!(ThreatInvariants::default().is_enabled(&anon_pipeline::threat_invariants::InvariantId::LoggingOptIn));
    assert_eq!(RuleSet::default(), RuleSet::new(vec![]));
    assert_eq!(
        RelayMetrics::default(),
        RelayMetrics { connections_rejected: 0, opens_rejected: 0, buffer_limit_breached: 0 }
    );
    assert_eq!(ConnectionState::default(), ConnectionState::new());
}

#[test]
fn logging_surfaces_come_in_list_order() {
    let surfaces = AttackSurfaceEnumeration::new();
    let found = surfaces
        .get_surfaces_for_invariant(&anon_pipeline::threat_invariants::InvariantId::LoggingOptIn);
    let paths: Vec<&str> = found.iter().map(|s| s.violation_path.as_str()).collect();
    assert_eq!(
        paths,
        vec![
            "Default println! statements",
            "Error logging with sensitive data",
            "Debug logs in release builds",
        ]
    );
}
