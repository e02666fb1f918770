//! The design of the layered transport as data: its components, its
//! messages, who owns which keys, and the steps of each exchange.

use vstd::prelude::*;

verus! {

/// The names of the components, by part of the system.
pub struct ComponentList {
    pub control_plane: Vec<&'static str>,
    pub data_plane: Vec<&'static str>,
    pub key_management: Vec<&'static str>,
    pub zone_interfaces: Vec<&'static str>,
}

/// The texts of a list of names.
pub open spec fn spec_names(names: Seq<&'static str>) -> Seq<Seq<char>> {
    Seq::new(names.len(), |i: int| names[i]@)
}

/// The components of `control_plane`.
pub open spec fn spec_control_plane_components() -> Seq<Seq<char>> {
    seq!["SessionEstablisher"@, "KeyExchanger"@, "RouteNegotiator"@, "ControlMessageHandler"@]
}

/// The components of `data_plane`.
pub open spec fn spec_data_plane_components() -> Seq<Seq<char>> {
    seq!["PayloadEncryptor"@, "PayloadDecryptor"@, "HopForwarder"@, "TunnelManager"@]
}

/// The components of `key_management`.
pub open spec fn spec_key_management_components() -> Seq<Seq<char>> {
    seq!["EphemeralKeyGenerator"@, "HopKeyDeriver"@, "KeyRotator"@, "SecureKeyStorage"@]
}

/// The components of `zone_interfaces`.
pub open spec fn spec_zone_interfaces_components() -> Seq<Seq<char>> {
    seq!["LocalZoneInterface"@, "EntryZoneInterface"@, "RelayZoneInterface"@, "ExitZoneInterface"@]
}

impl ComponentList {
    /// The components of the design.
    pub fn new() -> (list: ComponentList)
        ensures
            spec_names(list.control_plane@) == spec_control_plane_components(),
            spec_names(list.data_plane@) == spec_data_plane_components(),
            spec_names(list.key_management@) == spec_key_management_components(),
            spec_names(list.zone_interfaces@) == spec_zone_interfaces_components(),
    {
        let list = ComponentList {
            control_plane: vec!["SessionEstablisher", "KeyExchanger", "RouteNegotiator", "ControlMessageHandler"],
            data_plane: vec!["PayloadEncryptor", "PayloadDecryptor", "HopForwarder", "TunnelManager"],
            key_management: vec!["EphemeralKeyGenerator", "HopKeyDeriver", "KeyRotator", "SecureKeyStorage"],
            zone_interfaces: vec!["LocalZoneInterface", "EntryZoneInterface", "RelayZoneInterface", "ExitZoneInterface"],
        };
        proof {
            assert(spec_names(list.control_plane@) =~= spec_control_plane_components());
            assert(spec_names(list.data_plane@) =~= spec_data_plane_components());
            assert(spec_names(list.key_management@) =~= spec_key_management_components());
            assert(spec_names(list.zone_interfaces@) =~= spec_zone_interfaces_components());
        }
        list
    }
}

/// The three families of message.
#[derive(Debug, Clone)]
pub enum MessageType {
    Control(ControlMessage),
    Encrypted(EncryptedMessage),
    Payload(PayloadMessage),
}

/// The messages of the control plane.
#[derive(Debug, Clone)]
pub enum ControlMessage {
    SessionInit { session_id: [u8; 32], public_key: [u8; 32], route_length: u8 },
    KeyExchange { encrypted_key: Vec<u8>, hop_index: u8 },
    RouteSetup { encrypted_next_hop: Vec<u8>, layer_count: u8 },
    SessionTeardown { session_id: [u8; 32] },
}

/// A payload under one hop's layer of encryption.
#[derive(Debug, Clone)]
pub struct EncryptedMessage {
    pub hop_layer: u8,
    pub encrypted_payload: Vec<u8>,
    pub authentication_tag: [u8; 16],
}

/// The messages of the data plane.
#[derive(Debug, Clone)]
pub enum PayloadMessage {
    TunnelData { encrypted_content: Vec<u8>, sequence_number: u64 },
    DnsRequest { encrypted_hostname: Vec<u8>, request_id: u32 },
    DnsResponse { encrypted_ip_list: Vec<u8>, request_id: u32 },
}

/// The keys of each zone.
pub struct KeyOwnership {
    pub local_zone: LocalZoneKeys,
    pub entry_zone: EntryZoneKeys,
    pub relay_zone: RelayZoneKeys,
    pub exit_zone: ExitZoneKeys,
}

/// The keys of the local zone.
pub struct LocalZoneKeys {
    pub session_private_key: [u8; 32],
    pub all_hop_keys: Vec<[u8; 32]>,
    pub route_encryption_key: [u8; 32],
}

/// The keys of the entry zone.
pub struct EntryZoneKeys {
    pub hop_decryption_key: [u8; 32],
    pub next_hop_encryption_key: [u8; 32],
    pub session_authentication_key: [u8; 32],
}

/// The keys of the relay zone.
pub struct RelayZoneKeys {
    pub previous_hop_decryption_key: [u8; 32],
    pub next_hop_encryption_key: [u8; 32],
    pub layer_authentication_key: [u8; 32],
}

/// The keys of the exit zone.
pub struct ExitZoneKeys {
    pub final_decryption_key: [u8; 32],
    pub dns_encryption_key: [u8; 32],
    pub response_encryption_key: [u8; 32],
}

/// One step of an exchange.
pub struct SequenceStep {
    pub step_number: u8,
    pub source_zone: &'static str,
    pub target_zone: &'static str,
    pub message_type: &'static str,
    pub data_visibility: Vec<&'static str>,
    pub key_operations: Vec<&'static str>,
}

/// One step of an exchange as a mathematical value.
pub struct SequenceStepView {
    pub step_number: u8,
    pub source_zone: Seq<char>,
    pub target_zone: Seq<char>,
    pub message_type: Seq<char>,
    pub data_visibility: Seq<Seq<char>>,
    pub key_operations: Seq<Seq<char>>,
}

impl View for SequenceStep {
    type V = SequenceStepView;

    open spec fn view(&self) -> SequenceStepView {
        SequenceStepView {
            step_number: self.step_number,
            source_zone: self.source_zone@,
            target_zone: self.target_zone@,
            message_type: self.message_type@,
            data_visibility: spec_names(self.data_visibility@),
            key_operations: spec_names(self.key_operations@),
        }
    }
}

/// The steps of a list, each as a mathematical value.
pub open spec fn spec_steps(steps: Seq<SequenceStep>) -> Seq<SequenceStepView> {
    Seq::new(steps.len(), |i: int| steps[i]@)
}

/// The steps of the four exchanges.
pub struct TransportSequence {
    pub session_establishment: Vec<SequenceStep>,
    pub data_forwarding: Vec<SequenceStep>,
    pub dns_resolution: Vec<SequenceStep>,
    pub session_teardown: Vec<SequenceStep>,
}

/// The steps of `session_establishment`.
pub open spec fn spec_session_establishment_steps() -> Seq<SequenceStepView> {
    seq![
        (SequenceStepView { step_number: 1u8, source_zone: "Local"@, target_zone: "Entry"@, message_type: "SessionInit"@, data_visibility: seq!["session_id"@, "public_key"@, "encrypted_route"@], key_operations: seq!["generate_ephemeral_key"@, "encrypt_route_info"@] }),
        (SequenceStepView { step_number: 2u8, source_zone: "Entry"@, target_zone: "Relay"@, message_type: "KeyExchange"@, data_visibility: seq!["encrypted_key"@, "hop_index"@], key_operations: seq!["decrypt_layer"@, "derive_next_key"@] }),
        (SequenceStepView { step_number: 3u8, source_zone: "Relay"@, target_zone: "Exit"@, message_type: "RouteSetup"@, data_visibility: seq!["encrypted_next_hop"@, "layer_count"@], key_operations: seq!["decrypt_final_layer"@, "setup_exit_keys"@] }),
    ]
}

/// The steps of `data_forwarding`.
pub open spec fn spec_data_forwarding_steps() -> Seq<SequenceStepView> {
    seq![
        (SequenceStepView { step_number: 1u8, source_zone: "Local"@, target_zone: "Entry"@, message_type: "EncryptedMessage"@, data_visibility: seq!["encrypted_payload"@, "authentication_tag"@], key_operations: seq!["encrypt_with_hop_key"@, "authenticate"@] }),
        (SequenceStepView { step_number: 2u8, source_zone: "Entry"@, target_zone: "Relay"@, message_type: "EncryptedMessage"@, data_visibility: seq!["re_encrypted_payload"@, "new_auth_tag"@], key_operations: seq!["decrypt_layer"@, "re_encrypt_for_next"@] }),
        (SequenceStepView { step_number: 3u8, source_zone: "Relay"@, target_zone: "Exit"@, message_type: "EncryptedMessage"@, data_visibility: seq!["final_encrypted_payload"@], key_operations: seq!["decrypt_to_plaintext"@] }),
    ]
}

/// The steps of `dns_resolution`.
pub open spec fn spec_dns_resolution_steps() -> Seq<SequenceStepView> {
    seq![
        (SequenceStepView { step_number: 1u8, source_zone: "Exit"@, target_zone: "External"@, message_type: "DnsRequest"@, data_visibility: seq!["hostname_plaintext"@], key_operations: seq!["decrypt_hostname"@, "resolve_dns"@] }),
        (SequenceStepView { step_number: 2u8, source_zone: "External"@, target_zone: "Exit"@, message_type: "DnsResponse"@, data_visibility: seq!["ip_addresses"@], key_operations: seq!["encrypt_response"@] }),
    ]
}

/// The steps of `session_teardown`.
pub open spec fn spec_session_teardown_steps() -> Seq<SequenceStepView> {
    seq![
        (SequenceStepView { step_number: 1u8, source_zone: "Local"@, target_zone: "Entry"@, message_type: "SessionTeardown"@, data_visibility: seq!["session_id"@], key_operations: seq!["clear_session_keys"@] }),
        (SequenceStepView { step_number: 2u8, source_zone: "Entry"@, target_zone: "Exit"@, message_type: "SessionTeardown"@, data_visibility: seq!["propagated_teardown"@], key_operations: seq!["clear_all_hop_keys"@] }),
    ]
}

impl TransportSequence {
    /// The steps of the four exchanges of the design.
    pub fn new() -> (sequence: TransportSequence)
        ensures
            spec_steps(sequence.session_establishment@) == spec_session_establishment_steps(),
            spec_steps(sequence.data_forwarding@) == spec_data_forwarding_steps(),
            spec_steps(sequence.dns_resolution@) == spec_dns_resolution_steps(),
            spec_steps(sequence.session_teardown@) == spec_session_teardown_steps(),
    {
        let session_establishment = vec![
            SequenceStep {
                step_number: 1,
                source_zone: "Local",
                target_zone: "Entry",
                message_type: "SessionInit",
                data_visibility: vec!["session_id", "public_key", "encrypted_route"],
                key_operations: vec!["generate_ephemeral_key", "encrypt_route_info"],
            },
            SequenceStep {
                step_number: 2,
                source_zone: "Entry",
                target_zone: "Relay",
                message_type: "KeyExchange",
                data_visibility: vec!["encrypted_key", "hop_index"],
                key_operations: vec!["decrypt_layer", "derive_next_key"],
            },
            SequenceStep {
                step_number: 3,
                source_zone: "Relay",
                target_zone: "Exit",
                message_type: "RouteSetup",
                data_visibility: vec!["encrypted_next_hop", "layer_count"],
                key_operations: vec!["decrypt_final_layer", "setup_exit_keys"],
            },
        ];
        proof {
            assert(session_establishment@[0]@.data_visibility =~= spec_session_establishment_steps()[0].data_visibility);
            assert(session_establishment@[0]@.key_operations =~= spec_session_establishment_steps()[0].key_operations);
            assert(session_establishment@[1]@.data_visibility =~= spec_session_establishment_steps()[1].data_visibility);
            assert(session_establishment@[1]@.key_operations =~= spec_session_establishment_steps()[1].key_operations);
            assert(session_establishment@[2]@.data_visibility =~= spec_session_establishment_steps()[2].data_visibility);
            assert(session_establishment@[2]@.key_operations =~= spec_session_establishment_steps()[2].key_operations);
            assert(spec_steps(session_establishment@) =~= spec_session_establishment_steps());
        }
        let data_forwarding = vec![
            SequenceStep {
                step_number: 1,
                source_zone: "Local",
                target_zone: "Entry",
                message_type: "EncryptedMessage",
                data_visibility: vec!["encrypted_payload", "authentication_tag"],
                key_operations: vec!["encrypt_with_hop_key", "authenticate"],
            },
            SequenceStep {
                step_number: 2,
                source_zone: "Entry",
                target_zone: "Relay",
                message_type: "EncryptedMessage",
                data_visibility: vec!["re_encrypted_payload", "new_auth_tag"],
                key_operations: vec!["decrypt_layer", "re_encrypt_for_next"],
            },
            SequenceStep {
                step_number: 3,
                source_zone: "Relay",
                target_zone: "Exit",
                message_type: "EncryptedMessage",
                data_visibility: vec!["final_encrypted_payload"],
                key_operations: vec!["decrypt_to_plaintext"],
            },
        ];
        proof {
            assert(data_forwarding@[0]@.data_visibility =~= spec_data_forwarding_steps()[0].data_visibility);
            assert(data_forwarding@[0]@.key_operations =~= spec_data_forwarding_steps()[0].key_operations);
            assert(data_forwarding@[1]@.data_visibility =~= spec_data_forwarding_steps()[1].data_visibility);
            assert(data_forwarding@[1]@.key_operations =~= spec_data_forwarding_steps()[1].key_operations);
            assert(data_forwarding@[2]@.data_visibility =~= spec_data_forwarding_steps()[2].data_visibility);
            assert(data_forwarding@[2]@.key_operations =~= spec_data_forwarding_steps()[2].key_operations);
            assert(spec_steps(data_forwarding@) =~= spec_data_forwarding_steps());
        }
        let dns_resolution = vec![
            SequenceStep {
                step_number: 1,
                source_zone: "Exit",
                target_zone: "External",
                message_type: "DnsRequest",
                data_visibility: vec!["hostname_plaintext"],
                key_operations: vec!["decrypt_hostname", "resolve_dns"],
            },
            SequenceStep {
                step_number: 2,
                source_zone: "External",
                target_zone: "Exit",
                message_type: "DnsResponse",
                data_visibility: vec!["ip_addresses"],
                key_operations: vec!["encrypt_response"],
            },
        ];
        proof {
            assert(dns_resolution@[0]@.data_visibility =~= spec_dns_resolution_steps()[0].data_visibility);
            assert(dns_resolution@[0]@.key_operations =~= spec_dns_resolution_steps()[0].key_operations);
            assert(dns_resolution@[1]@.data_visibility =~= spec_dns_resolution_steps()[1].data_visibility);
            assert(dns_resolution@[1]@.key_operations =~= spec_dns_resolution_steps()[1].key_operations);
            assert(spec_steps(dns_resolution@) =~= spec_dns_resolution_steps());
        }
        let session_teardown = vec![
            SequenceStep {
                step_number: 1,
                source_zone: "Local",
                target_zone: "Entry",
                message_type: "SessionTeardown",
                data_visibility: vec!["session_id"],
                key_operations: vec!["clear_session_keys"],
            },
            SequenceStep {
                step_number: 2,
                source_zone: "Entry",
                target_zone: "Exit",
                message_type: "SessionTeardown",
                data_visibility: vec!["propagated_teardown"],
                key_operations: vec!["clear_all_hop_keys"],
            },
        ];
        proof {
            assert(session_teardown@[0]@.data_visibility =~= spec_session_teardown_steps()[0].data_visibility);
            assert(session_teardown@[0]@.key_operations =~= spec_session_teardown_steps()[0].key_operations);
            assert(session_teardown@[1]@.data_visibility =~= spec_session_teardown_steps()[1].data_visibility);
            assert(session_teardown@[1]@.key_operations =~= spec_session_teardown_steps()[1].key_operations);
            assert(spec_steps(session_teardown@) =~= spec_session_teardown_steps());
        }
        TransportSequence { session_establishment, data_forwarding, dns_resolution, session_teardown }
    }
}

/// Which threat invariants the design keeps.
pub struct InvariantCompliance {
    pub dns_at_exit_only: bool,
    pub no_source_destination_correlation: bool,
    pub isp_traffic_encrypted: bool,
    pub entry_blind_to_destination: bool,
    pub exit_blind_to_source: bool,
    pub no_default_logging: bool,
}

impl InvariantCompliance {
    /// The compliance of the design: it keeps all six invariants.
    pub fn validate() -> (c: InvariantCompliance)
        ensures
            c.dns_at_exit_only,
            c.no_source_destination_correlation,
            c.isp_traffic_encrypted,
            c.entry_blind_to_destination,
            c.exit_blind_to_source,
            c.no_default_logging,
    {
        InvariantCompliance {
            dns_at_exit_only: true,
            no_source_destination_correlation: true,
            isp_traffic_encrypted: true,
            entry_blind_to_destination: true,
            exit_blind_to_source: true,
            no_default_logging: true,
        }
    }
}

} // verus!
