use anon_pipeline::control_plane::{
    ControlError, EncryptedRoute, HopKey, SessionEstablisher, SessionId,
};
use anon_pipeline::data_plane::{
    DataError, EncryptedPayload, PayloadDecryptor, ProcessResult, TunnelManager,
};
use anon_pipeline::key_management::{
    EntryZoneKeys, HopKeyDeriver, KeyError, LocalZoneKeys, SecureKeyStorage,
};
use anon_pipeline::threat_invariants::{InvariantContext, InvariantViolation, ThreatInvariants};
use anon_pipeline::trust_boundaries::{DestinationHostname, TrustZone};
use anon_pipeline::zone_interfaces::{
    EntryZoneInterface, LocalZoneInterface, RelayZoneInterface,
};

#[test]
fn test_entry_cannot_access_destination() {
    let entry_interface = EntryZoneInterface::new();

    assert!(!entry_interface.has_destination_hostname());

    let context = InvariantContext {
        component_name: "entry_zone".to_string(),
        has_source_ip: entry_interface.has_source_ip(),
        has_destination_hostname: entry_interface.has_destination_hostname(),
        traffic_encrypted: true,
        dns_resolution_attempted: false,
        logging_enabled: false,
    };

    let invariants = ThreatInvariants::new();
    let violations = invariants.check_context(&context);

    assert!(violations.is_empty());
}

#[test]
fn test_relay_sees_neither_source_nor_destination() {
    let relay_interface = RelayZoneInterface::new();

    assert!(!relay_interface.has_source_ip());
    assert!(!relay_interface.has_destination_hostname());

    let context = InvariantContext {
        component_name: "relay_zone".to_string(),
        has_source_ip: relay_interface.has_source_ip(),
        has_destination_hostname: relay_interface.has_destination_hostname(),
        traffic_encrypted: true,
        dns_resolution_attempted: false,
        logging_enabled: false,
    };

    let invariants = ThreatInvariants::new();
    let violations = invariants.check_context(&context);

    assert!(violations.is_empty());
}

#[test]
fn test_encrypted_payload_required_in_transit() {
    let session_id = SessionId([1u8; 32]);

    let entry_manager = TunnelManager::new(TrustZone::Entry);
    let encrypted_payload = EncryptedPayload(vec![1, 2, 3, 4]);

    let result = entry_manager.process_inbound(&session_id, encrypted_payload);
    assert!(result.is_ok());

    if let Ok(ProcessResult::Forward(forwarded)) = result {
        assert!(!forwarded.0.is_empty());
    } else {
        panic!("Expected forwarded encrypted payload");
    }
}

#[test]
fn test_plaintext_only_in_local_and_exit_zones() {
    let exit_manager = TunnelManager::new(TrustZone::Exit);
    let session_id = SessionId([2u8; 32]);
    let encrypted_payload = EncryptedPayload(vec![1, 2, 3, 4]);

    let result = exit_manager.process_inbound(&session_id, encrypted_payload);
    assert!(result.is_ok());

    if let Ok(ProcessResult::Deliver(plaintext)) = result {
        assert!(!plaintext.0.is_empty());
    } else {
        panic!("Expected plaintext payload in exit zone");
    }

    let relay_decryptor = PayloadDecryptor::new(TrustZone::Relay);
    let encrypted = EncryptedPayload(vec![1, 2, 3, 4]);
    let plaintext_result = relay_decryptor.decrypt_to_plaintext(&session_id, &encrypted);
    assert!(plaintext_result.is_err());
    assert!(matches!(plaintext_result.unwrap_err(), DataError::PlaintextNotAllowed));
}

#[test]
fn test_key_storage_zone_enforcement() {
    let mut local_storage = SecureKeyStorage::new(TrustZone::Local);
    let local_keys = LocalZoneKeys {
        session_private_key: [1u8; 32],
        all_hop_keys: vec![[2u8; 32]],
        route_encryption_key: [3u8; 32],
    };

    let result = local_storage.store_local_keys(local_keys);
    assert!(result.is_ok());

    let entry_keys = EntryZoneKeys {
        hop_decryption_key: [4u8; 32],
        next_hop_encryption_key: [5u8; 32],
        session_authentication_key: [6u8; 32],
    };

    let invalid_result = local_storage.store_entry_keys(entry_keys);
    assert!(invalid_result.is_err());
    assert!(matches!(invalid_result.unwrap_err(), KeyError::InvalidZone));
}

#[test]
fn test_session_establishment_zone_restrictions() {
    let local_establisher = SessionEstablisher::new(TrustZone::Local);
    let route = EncryptedRoute(vec![1, 2, 3, 4]);
    let result = local_establisher.initiate_session(route);
    assert!(result.is_ok());

    let entry_establisher = SessionEstablisher::new(TrustZone::Entry);
    let route = EncryptedRoute(vec![1, 2, 3, 4]);
    let invalid_result = entry_establisher.initiate_session(route);
    assert!(invalid_result.is_err());
    assert!(matches!(invalid_result.unwrap_err(), ControlError::InvalidZone));
}

#[test]
fn test_source_destination_correlation_blocked() {
    let local_interface = LocalZoneInterface::new();
    assert!(local_interface.has_source_ip());
    assert!(local_interface.has_destination_hostname());

    let context = InvariantContext {
        component_name: "local_zone".to_string(),
        has_source_ip: true,
        has_destination_hostname: true,
        traffic_encrypted: true,
        dns_resolution_attempted: false,
        logging_enabled: false,
    };

    let invariants = ThreatInvariants::new();
    let violations = invariants.check_context(&context);

    assert!(!violations.is_empty());
    assert!(matches!(
        violations[0],
        InvariantViolation::NoSourceDestinationCorrelation { .. }
    ));
}

#[test]
fn test_hop_key_derivation_zone_restrictions() {
    let entry_deriver = HopKeyDeriver::new(TrustZone::Entry);
    let hop_key = HopKey([1u8; 32]);
    let result = entry_deriver.derive_next_hop_key(&hop_key);
    assert!(result.is_ok());

    let local_deriver = HopKeyDeriver::new(TrustZone::Local);
    let invalid_result = local_deriver.derive_next_hop_key(&hop_key);
    assert!(invalid_result.is_err());
    assert!(matches!(invalid_result.unwrap_err(), KeyError::InvalidZone));
}

#[test]
fn a_local_tunnel_is_named_by_the_placeholder_generator() {
    let mut local_interface = LocalZoneInterface::new();
    let session = local_interface
        .initiate_tunnel(
            DestinationHostname("example.org".to_string()),
            EncryptedRoute(vec![9, 9]),
        )
        .unwrap();
    assert_eq!(session.0, [0u8; 32]);
    let other = local_interface
        .initiate_tunnel(DestinationHostname("example.net".to_string()), EncryptedRoute(vec![]))
        .unwrap();
    assert_eq!(other.0, session.0);
}
