use anon_pipeline::counters::bump;
use anon_pipeline::guard::{
    contains_token, enforce_observability_guards, find_forbidden_token, forbidden_tokens,
    occurs_at,
};
use anon_pipeline::observability::{
    coarse_bucket_index, get_health, record_bytes_received_coarse, record_bytes_sent_coarse,
    record_connection_closed, record_connection_opened, record_error, record_frame_received,
    record_frame_sent, set_health, set_health_from_byte, snapshot, ErrorClass, HealthState,
    ObservabilityLevel, ObservabilityState,
};

#[test]
fn buckets_are_powers_of_two() {
    assert_eq!(coarse_bucket_index(0), 0);
    assert_eq!(coarse_bucket_index(1), 1);
    assert_eq!(coarse_bucket_index(2), 2);
    assert_eq!(coarse_bucket_index(3), 2);
    assert_eq!(coarse_bucket_index(4), 3);
    assert_eq!(coarse_bucket_index(7), 3);
    assert_eq!(coarse_bucket_index(8), 4);
    assert_eq!(coarse_bucket_index(1023), 10);
    assert_eq!(coarse_bucket_index(1024), 11);
    assert_eq!(coarse_bucket_index((1 << 19) - 1), 19);
    assert_eq!(coarse_bucket_index(1 << 19), 20);
    assert_eq!(coarse_bucket_index(1 << 20), 20);
    assert_eq!(coarse_bucket_index(usize::MAX), 20);
    for i in 1..20usize {
        assert_eq!(coarse_bucket_index(1 << (i - 1)), i);
        assert_eq!(coarse_bucket_index((1 << i) - 1), i);
    }
}

#[test]
fn sinks_count_at_the_safe_level_without_snapshots() {
    let mut state = ObservabilityState::new(ObservabilityLevel::OBS_SAFE);
    assert_eq!(state.level(), ObservabilityLevel::OBS_SAFE);
    record_frame_sent(&mut state);
    set_health(&mut state, HealthState::DEGRADED);
    assert_eq!(get_health(&state), HealthState::DEGRADED);
    assert!(snapshot(&state).is_none());
}

#[test]
fn sinks_do_nothing_at_the_none_level() {
    let mut state = ObservabilityState::new(ObservabilityLevel::OBS_NONE);
    record_error(&mut state, ErrorClass::TRANSPORT_IO);
    record_connection_opened(&mut state);
    record_bytes_sent_coarse(&mut state, 10);
    set_health(&mut state, HealthState::FAULTED);
    set_health_from_byte(&mut state, 200);
    assert_eq!(get_health(&state), HealthState::OK);
    assert!(snapshot(&state).is_none());
}

#[test]
fn snapshot_exports_every_counter() {
    let mut state = ObservabilityState::new(ObservabilityLevel::OBS_DEV);
    let empty = snapshot(&state).unwrap();
    assert_eq!(empty.total_connections_opened, 0);
    assert_eq!(empty.bytes_sent_coarse, [0u64; 21]);
    assert_eq!(empty.error_class_counts, [0u64; 4]);
    record_connection_opened(&mut state);
    record_connection_opened(&mut state);
    record_connection_closed(&mut state);
    for _ in 0..3 {
        record_frame_sent(&mut state);
    }
    for _ in 0..4 {
        record_frame_received(&mut state);
    }
    record_bytes_sent_coarse(&mut state, 0);
    record_bytes_sent_coarse(&mut state, 5);
    record_bytes_sent_coarse(&mut state, 6);
    record_bytes_received_coarse(&mut state, 1 << 30);
    record_error(&mut state, ErrorClass::PROTOCOL_VIOLATION);
    record_error(&mut state, ErrorClass::RESOURCE_LIMIT);
    record_error(&mut state, ErrorClass::RESOURCE_LIMIT);
    record_error(&mut state, ErrorClass::INTERNAL_ASSERT);
    let snap = snapshot(&state).unwrap();
    assert_eq!(snap.total_connections_opened, 2);
    assert_eq!(snap.total_connections_closed, 1);
    assert_eq!(snap.frames_sent, 3);
    assert_eq!(snap.frames_received, 4);
    let mut sent = [0u64; 21];
    sent[0] = 1;
    sent[3] = 2;
    assert_eq!(snap.bytes_sent_coarse, sent);
    let mut received = [0u64; 21];
    received[20] = 1;
    assert_eq!(snap.bytes_received_coarse, received);
    assert_eq!(snap.error_class_counts, [1, 0, 2, 1]);
    assert_eq!(ErrorClass::TRANSPORT_IO.index(), 1);
}

#[test]
fn an_impossible_health_byte_faults_and_is_counted() {
    let mut state = ObservabilityState::new(ObservabilityLevel::OBS_DEV);
    set_health_from_byte(&mut state, 1);
    assert_eq!(get_health(&state), HealthState::DEGRADED);
    assert_eq!(snapshot(&state).unwrap().error_class_counts, [0, 0, 0, 0]);
    set_health_from_byte(&mut state, 3);
    assert_eq!(get_health(&state), HealthState::FAULTED);
    assert_eq!(snapshot(&state).unwrap().error_class_counts, [0, 0, 0, 1]);
    set_health_from_byte(&mut state, 0);
    assert_eq!(get_health(&state), HealthState::OK);
    assert_eq!(HealthState::from_byte(2), (HealthState::FAULTED, true));
    assert_eq!(HealthState::from_byte(255), (HealthState::FAULTED, false));
    assert_eq!(HealthState::DEGRADED.to_byte(), 1);
}

#[test]
fn counters_stay_at_their_largest_value() {
    assert_eq!(bump(0), 1);
    assert_eq!(bump(u64::MAX - 1), u64::MAX);
    assert_eq!(bump(u64::MAX), u64::MAX);
}

#[test]
fn guard_finds_each_forbidden_name() {
    let tokens = forbidden_tokens();
    let names: Vec<String> =
        tokens.iter().map(|t| String::from_utf8(t.clone()).unwrap()).collect();
    assert_eq!(
        names,
        vec![
            "chrono",
            "std::net",
            "SocketAddr",
            "IpAddr",
            "relay_protocol",
            "SystemTime",
            "Instant",
            "log!(",
            ["print", "ln!("].concat().as_str(),
            ["eprint", "ln!("].concat().as_str(),
        ]
    );
    for (i, name) in names.iter().enumerate() {
        let text = format!("fn f() {{ {} }}", name);
        let found = find_forbidden_token(text.as_bytes()).unwrap();
        assert!(found <= i);
        assert!(contains_token(text.as_bytes(), &tokens[i]));
        assert!(!enforce_observability_guards(&text));
    }
    assert_eq!(find_forbidden_token(b"use std::net::SocketAddr;"), Some(1));
    assert_eq!(find_forbidden_token(b"SocketAddr"), Some(2));
    assert_eq!(find_forbidden_token(b"static COUNT: AtomicU64 = AtomicU64::new(0);"), None);
    assert_eq!(find_forbidden_token(b""), None);
    assert_eq!(find_forbidden_token(b"chron"), None);
    assert!(enforce_observability_guards("instant coffee, socket addr, ip addr"));
    assert!(contains_token(b"abc", b""));
    assert!(contains_token(b"", b""));
    assert!(!contains_token(b"ab", b"abc"));
    assert!(contains_token(b"xxabc", b"abc"));
    assert!(occurs_at(b"xxabc", b"abc", 2));
    assert!(!occurs_at(b"xxabc", b"ab", 1));
}
