use anon_pipeline::anonymity_protocol::AnonymityProtocolEngine;
use anon_pipeline::connection_table::{
    ConnectionState, ConnectionTable, RelayLimits, TableError,
};
use anon_pipeline::control::{ControlMessage, ControlOpcode, DataFrame, PayloadError};
use anon_pipeline::frame::{
    copy_range, FrameDecoder, FrameEncoder, FrameError, FrameType, MAX_PAYLOAD_LEN,
};
use anon_pipeline::negotiation::{HandshakeError, ProtocolNegotiator};
use anon_pipeline::protocol_engine::{EngineError, ProtocolCallbacks, ProtocolEngine};
use anon_pipeline::rng::RandomSource;
use anon_pipeline::stream::{next_stream_event, tail_of, StreamEvent};
use anon_pipeline::transport_adapter::{TransportCallbacks, TransportError};
use anon_pipeline::wire::{push_be16, push_be32, read_be16, read_be32};

fn limits() -> RelayLimits {
    RelayLimits { max_connections: 2, max_inflight_opens: 1, max_buffered_bytes: 100 }
}

fn frame(version: u8, frame_type: FrameType, payload: &[u8]) -> Vec<u8> {
    let mut wire = Vec::new();
    FrameEncoder::encode_frame(&mut wire, version, frame_type, payload).unwrap();
    wire
}

#[test]
fn wire_fields_are_big_endian() {
    let mut out = vec![0xFF];
    push_be32(&mut out, 0x01020304);
    push_be16(&mut out, 0xABCD);
    assert_eq!(out, vec![0xFF, 1, 2, 3, 4, 0xAB, 0xCD]);
    assert_eq!(read_be32(&out, 1), 0x01020304);
    assert_eq!(read_be16(&out, 5), 0xABCD);
    assert_eq!(read_be32(&[0xFF, 0xFF, 0xFF, 0xFF], 0), u32::MAX);
    assert_eq!(copy_range(&out, 1, 3), vec![1, 2]);
    assert_eq!(tail_of(&out, 5), &[0xAB, 0xCD]);
}

#[test]
fn frame_decoder_names_each_error() {
    assert_eq!(FrameDecoder::decode_frame(&[]), Err(FrameError::Truncated));
    assert_eq!(FrameDecoder::decode_frame(&[0, 0, 0]), Err(FrameError::Truncated));
    assert_eq!(FrameDecoder::decode_frame(&[0, 0x10, 0, 1]), Err(FrameError::TooLarge));
    assert_eq!(FrameDecoder::decode_frame(&[0, 0x10, 0, 0]), Err(FrameError::Truncated));
    assert_eq!(FrameDecoder::decode_frame(&[0, 0, 0, 1, 2, 2]), Err(FrameError::TooSmall));
    assert_eq!(FrameDecoder::decode_frame(&[0, 0, 0, 0]), Err(FrameError::TooSmall));
    assert_eq!(FrameDecoder::decode_frame(&[0, 0, 0, 2, 2]), Err(FrameError::Truncated));
    assert_eq!(FrameDecoder::decode_frame(&[0, 0, 0, 2, 2, 3]), Err(FrameError::UnknownType));
    assert_eq!(FrameDecoder::decode_frame(&[0, 0, 0, 2, 2, 0]), Err(FrameError::UnknownType));
    assert_eq!(FrameDecoder::decode_frame(&[0, 0, 0, 3, 2, 1]), Err(FrameError::Truncated));
    assert_eq!(
        FrameDecoder::decode_frame(&[0, 0, 0, 2, 9, 1, 77]),
        Ok((9, FrameType::Control, vec![], 6))
    );
    assert_eq!(FrameType::from_byte(1), Some(FrameType::Control));
    assert_eq!(FrameType::from_byte(2), Some(FrameType::Data));
    assert_eq!(FrameType::from_byte(0), None);
    assert_eq!(FrameType::Data.to_byte(), 2);
}

#[test]
fn frame_size_limit_is_one_mebibyte() {
    let largest = vec![7u8; MAX_PAYLOAD_LEN];
    let wire = frame(1, FrameType::Data, &largest);
    assert_eq!(wire.len(), 6 + 1_048_574);
    assert_eq!(&wire[..4], &[0, 0x10, 0, 0]);
    let (version, frame_type, payload, consumed) = FrameDecoder::decode_frame(&wire).unwrap();
    assert_eq!((version, frame_type, consumed), (1, FrameType::Data, 1_048_580));
    assert_eq!(payload, largest);
    let too_large = vec![7u8; MAX_PAYLOAD_LEN + 1];
    let mut out = vec![1, 2, 3];
    assert_eq!(
        FrameEncoder::encode_frame(&mut out, 1, FrameType::Data, &too_large),
        Err(FrameError::TooLarge)
    );
    assert_eq!(out, vec![1, 2, 3]);
}

#[test]
fn control_messages_have_their_wire_form() {
    let hello = ControlMessage::Hello { version: 1, capability_flags: 0x01020304 };
    assert_eq!(hello.encode(), vec![0, 1, 1, 2, 3, 4]);
    let open = ControlMessage::Open {
        conn_id: 5,
        target_host: "a.b".to_string(),
        target_port: 443,
    };
    assert_eq!(open.encode(), vec![1, 0, 0, 0, 5, 3, b'a', b'.', b'b', 1, 187]);
    let close = ControlMessage::Close { conn_id: 6, reason: 9 };
    assert_eq!(close.encode(), vec![2, 0, 0, 0, 6, 9]);
    let update = ControlMessage::WindowUpdate { conn_id: 7, credits: 65536 };
    assert_eq!(update.encode(), vec![3, 0, 0, 0, 7, 0, 1, 0, 0]);
    let error = ControlMessage::Error { conn_id: 8, code: 2 };
    assert_eq!(error.encode(), vec![4, 0, 0, 0, 8, 2]);
    for m in [hello, open, close, update, error] {
        assert_eq!(ControlMessage::decode(&m.encode()), Ok(m.duplicate()));
        let mut longer = m.encode();
        longer.push(0xEE);
        assert_eq!(ControlMessage::decode(&longer), Ok(m));
    }
    assert_eq!(ControlMessage::Hello { version: 1, capability_flags: 0 }.conn_id(), 0);
    assert_eq!(ControlMessage::Close { conn_id: 6, reason: 9 }.conn_id(), 6);
    assert_eq!(ControlOpcode::from_byte(3), Some(ControlOpcode::WindowUpdate));
    assert_eq!(ControlOpcode::from_byte(5), None);
    assert_eq!(ControlOpcode::Error.to_byte(), 4);
}

#[test]
fn control_decoder_names_each_error() {
    assert_eq!(ControlMessage::decode(&[]), Err(PayloadError::Empty));
    assert_eq!(ControlMessage::decode(&[5]), Err(PayloadError::UnknownOpcode));
    assert_eq!(ControlMessage::decode(&[0, 1, 0, 0, 0]), Err(PayloadError::TooShort));
    assert_eq!(ControlMessage::decode(&[1, 0, 0, 0]), Err(PayloadError::TooShort));
    assert_eq!(ControlMessage::decode(&[1, 0, 0, 0, 1]), Err(PayloadError::TooShort));
    assert_eq!(ControlMessage::decode(&[1, 0, 0, 0, 1, 2, b'a', b'b', 0]), Err(PayloadError::TooShort));
    assert_eq!(
        ControlMessage::decode(&[1, 0, 0, 0, 1, 2, 0xC3, 0x28, 0, 80]),
        Err(PayloadError::InvalidUtf8)
    );
    assert_eq!(
        ControlMessage::decode(&[1, 0, 0, 0, 1, 2, 0xC3, 0xA9, 0, 80]),
        Ok(ControlMessage::Open { conn_id: 1, target_host: "é".to_string(), target_port: 80 })
    );
    assert_eq!(
        ControlMessage::decode(&[1, 0, 0, 0, 1, 0, 0, 80]),
        Ok(ControlMessage::Open { conn_id: 1, target_host: String::new(), target_port: 80 })
    );
    assert_eq!(ControlMessage::decode(&[2, 0, 0, 0, 1]), Err(PayloadError::TooShort));
    assert_eq!(ControlMessage::decode(&[3, 0, 0, 0, 1, 0, 0, 0]), Err(PayloadError::TooShort));
    assert_eq!(ControlMessage::decode(&[4, 0, 0, 0, 1]), Err(PayloadError::TooShort));
}

#[test]
fn data_frames_carry_their_connection() {
    let data = DataFrame::new(0x0A0B0C0D, vec![1, 2, 3]);
    assert_eq!(data.encode(), vec![0x0A, 0x0B, 0x0C, 0x0D, 1, 2, 3]);
    assert_eq!(DataFrame::decode(&data.encode()), Ok(DataFrame::new(0x0A0B0C0D, vec![1, 2, 3])));
    assert_eq!(DataFrame::decode(&[0, 0, 0, 1]), Ok(DataFrame::new(1, vec![])));
    assert_eq!(DataFrame::decode(&[0, 0, 0]), Err(PayloadError::TooShort));
}

#[test]
fn handshake_accepts_one_hello_of_version_one() {
    let mut n = ProtocolNegotiator::new();
    assert!(!n.is_negotiated());
    assert_eq!(n.negotiated_version(), None);
    assert_eq!(
        n.process_hello(1, 0xF0),
        Ok(ControlMessage::Hello { version: 1, capability_flags: 0 })
    );
    assert!(n.is_negotiated());
    assert_eq!(n.negotiated_version(), Some(1));
    assert_eq!(n.peer_capabilities(), Some(0xF0));
    assert_eq!(n.process_hello(1, 0), Err(HandshakeError::AlreadyCompleted));
    let mut other = ProtocolNegotiator::new();
    assert_eq!(other.process_hello(2, 0), Err(HandshakeError::UnsupportedVersion));
    assert!(!other.is_negotiated());
    assert_eq!(other.peer_capabilities(), None);
    assert_eq!(other.process_hello(1, 0), Err(HandshakeError::AlreadyCompleted));
}

#[test]
fn flow_control_scenario() {
    let mut engine = ProtocolEngine::new(RelayLimits {
        max_connections: 8,
        max_inflight_opens: 8,
        max_buffered_bytes: 1 << 20,
    });
    assert!(engine.open_and_finalize(1));
    assert_eq!(engine.connection_table().get_send_window(1), Some(65536));
    assert!(engine.connection_table().can_send_data(1, 16384));
    engine.queue_data_frame(1, &vec![0u8; 16384]).unwrap();
    assert_eq!(engine.connection_table().get_send_window(1), Some(49152));
    assert!(engine.poll_control_frames().is_empty());
    engine.queue_data_frame(1, &vec![0u8; 16384]).unwrap();
    engine.queue_data_frame(1, &vec![0u8; 16384]).unwrap();
    assert_eq!(engine.connection_table().get_send_window(1), Some(16384));
    assert!(engine.poll_control_frames().is_empty());
    engine.queue_data_frame(1, &[0u8]).unwrap();
    assert_eq!(engine.connection_table().get_send_window(1), Some(16383));
    let polled = engine.poll_control_frames();
    assert_eq!(polled, vec![(1, ControlMessage::WindowUpdate { conn_id: 1, credits: 49153 })]);
    assert_eq!(engine.connection_table().get_send_window(1), Some(65536));
    assert!(engine.poll_control_frames().is_empty());
    assert_eq!(
        engine.next_outbound_frame(1),
        Some(vec![0, 0, 0, 11, 1, 1, 3, 0, 0, 0, 1, 0, 0, 0xC0, 0x01])
    );
}

#[test]
fn connection_table_follows_the_state_machine() {
    let mut t = ConnectionTable::new(limits());
    assert_eq!(t.finalize_open(1), Err(TableError::ConnectionNotFound));
    assert_eq!(t.open_connection(1), Ok(()));
    assert_eq!(t.get_state(1), Some(ConnectionState::Init));
    assert_eq!(t.inflight_opens(), 1);
    assert!(!t.can_send_data(1, 0));
    assert!(!t.is_open(1));
    assert_eq!(t.close_connection(1), Err(TableError::InvalidStateForClose));
    assert_eq!(t.finalize_close(1), Err(TableError::NotInClosingState));
    assert_eq!(t.open_connection(2), Err(TableError::MaxInflightOpensExceeded));
    assert_eq!(t.metrics().opens_rejected, 1);
    assert_eq!(t.finalize_open(1), Ok(()));
    assert_eq!(t.finalize_open(1), Err(TableError::NotInInitState));
    assert_eq!(t.inflight_opens(), 0);
    assert!(t.is_open(1));
    assert_eq!(t.open_connection(1), Err(TableError::ConnectionExists));
    assert_eq!(t.open_connection(2), Ok(()));
    assert_eq!(t.active_count(), 2);
    assert_eq!(t.open_connection(3), Err(TableError::MaxConnectionsExceeded));
    assert_eq!(t.open_connection(1), Err(TableError::MaxConnectionsExceeded));
    assert_eq!(t.metrics().connections_rejected, 2);
    assert_eq!(t.close_connection(1), Ok(()));
    assert_eq!(t.get_state(1), Some(ConnectionState::Closing));
    assert_eq!(t.close_connection(1), Err(TableError::InvalidStateForClose));
    assert_eq!(t.close_connection(9), Err(TableError::ConnectionNotFound));
    assert_eq!(t.finalize_close(9), Err(TableError::ConnectionNotFound));
    assert_eq!(t.finalize_close(1), Ok(()));
    assert_eq!(t.get_state(1), None);
    assert_eq!(t.active_count(), 1);
    let mut ids = t.connection_ids();
    ids.sort();
    assert_eq!(ids, vec![2]);
}

#[test]
fn send_window_stays_within_its_bounds() {
    let mut t = ConnectionTable::new(limits());
    t.set_default_window_size(100);
    t.open_connection(1).unwrap();
    t.finalize_open(1).unwrap();
    assert_eq!(t.get_send_window(1), Some(100));
    assert_eq!(t.consume_send_credits(1, 101), Err(TableError::InsufficientCredits));
    assert_eq!(t.get_send_window(1), Some(100));
    assert_eq!(t.consume_send_credits(9, 1), Err(TableError::ConnectionNotFound));
    assert_eq!(t.consume_send_credits(1, 100), Ok(()));
    assert_eq!(t.get_send_window(1), Some(0));
    assert_eq!(t.consume_send_credits(1, 1), Err(TableError::InsufficientCredits));
    assert!(t.should_send_window_update(1));
    assert_eq!(t.calculate_window_update(1), Some(100));
    assert_eq!(t.add_send_credits(1, 150), Ok(()));
    assert_eq!(t.get_send_window(1), Some(150));
    assert!(!t.should_send_window_update(1));
    assert_eq!(t.calculate_window_update(1), None);
    assert_eq!(t.add_send_credits(1, 51), Ok(()));
    assert_eq!(t.get_send_window(1), Some(200));
    assert_eq!(t.add_send_credits(1, u32::MAX), Ok(()));
    assert_eq!(t.get_send_window(1), Some(200));
    assert_eq!(t.add_send_credits(9, 1), Err(TableError::ConnectionNotFound));
    assert_eq!(t.get_send_window(9), None);
    assert!(!t.should_send_window_update(9));
    assert_eq!(t.calculate_window_update(9), None);
    t.consume_send_credits(1, 176).unwrap();
    assert_eq!(t.get_send_window(1), Some(24));
    assert!(t.should_send_window_update(1));
    t.add_send_credits(1, 1).unwrap();
    assert!(!t.should_send_window_update(1));
    t.set_default_window_size(u32::MAX);
    t.open_connection(2).unwrap();
    assert_eq!(t.add_send_credits(2, 7), Ok(()));
    assert_eq!(t.get_send_window(2), Some(u32::MAX));
}

#[test]
fn buffer_limit_is_enforced_and_counted() {
    let mut t = ConnectionTable::new(limits());
    assert_eq!(t.add_buffered_bytes(1, 1), Err(TableError::ConnectionNotFound));
    t.open_connection(1).unwrap();
    assert_eq!(t.add_buffered_bytes(1, 60), Ok(()));
    assert_eq!(t.add_buffered_bytes(1, 41), Err(TableError::BufferLimitExceeded));
    assert_eq!(t.add_buffered_bytes(1, usize::MAX), Err(TableError::BufferLimitExceeded));
    assert_eq!(t.metrics().buffer_limit_breached, 2);
    assert_eq!(t.add_buffered_bytes(1, 40), Ok(()));
    assert_eq!(t.add_buffered_bytes(1, 1), Err(TableError::BufferLimitExceeded));
    t.remove_buffered_bytes(1, 30);
    assert_eq!(t.add_buffered_bytes(1, 30), Ok(()));
    t.remove_buffered_bytes(1, 1000);
    assert_eq!(t.add_buffered_bytes(1, 100), Ok(()));
    t.remove_buffered_bytes(9, 1);
    assert_eq!(t.metrics().buffer_limit_breached, 3);
}

#[test]
fn poll_grants_each_due_update_once() {
    let mut t = ConnectionTable::new(RelayLimits {
        max_connections: 10,
        max_inflight_opens: 10,
        max_buffered_bytes: 10,
    });
    for id in 1..=4u32 {
        t.open_connection(id).unwrap();
        t.finalize_open(id).unwrap();
    }
    t.consume_send_credits(1, 65536).unwrap();
    t.consume_send_credits(3, 50000).unwrap();
    t.consume_send_credits(4, 49152).unwrap();
    let mut frames = t.poll_control_frames();
    frames.sort_by_key(|m| m.conn_id());
    assert_eq!(
        frames,
        vec![
            ControlMessage::WindowUpdate { conn_id: 1, credits: 65536 },
            ControlMessage::WindowUpdate { conn_id: 3, credits: 50000 },
        ]
    );
    assert_eq!(t.get_send_window(1), Some(65536));
    assert_eq!(t.get_send_window(2), Some(65536));
    assert_eq!(t.get_send_window(3), Some(65536));
    assert_eq!(t.get_send_window(4), Some(16384));
    assert!(t.poll_control_frames().is_empty());
}

#[test]
fn engine_applies_inbound_control_frames() {
    let mut engine = ProtocolEngine::new(RelayLimits {
        max_connections: 8,
        max_inflight_opens: 8,
        max_buffered_bytes: 100,
    });
    let open = ControlMessage::Open { conn_id: 99, target_host: "h".to_string(), target_port: 1 };
    let mut wire = frame(1, FrameType::Control, &open.encode());
    let split = wire.split_off(5);
    engine.on_transport_bytes(7, &wire);
    assert_eq!(engine.connection_table().get_state(7), None);
    engine.on_transport_bytes(7, &split);
    assert_eq!(engine.connection_table().get_state(7), Some(ConnectionState::Init));
    assert_eq!(engine.connection_table().get_state(99), None);
    let mut engine = ProtocolEngine::new(RelayLimits {
        max_connections: 8,
        max_inflight_opens: 8,
        max_buffered_bytes: 100,
    });
    assert!(engine.open_and_finalize(7));
    assert!(!engine.open_and_finalize(7));
    let credit = ControlMessage::WindowUpdate { conn_id: 0, credits: 10 };
    let close = ControlMessage::Close { conn_id: 0, reason: 0 };
    let mut stream = frame(9, FrameType::Control, &credit.encode());
    stream.extend(frame(1, FrameType::Data, &DataFrame::new(7, vec![1]).encode()));
    stream.extend(frame(1, FrameType::Control, &[200]));
    stream.extend(vec![0, 0, 0, 3, 1, 77, 0]);
    stream.extend(frame(1, FrameType::Control, &close.encode()));
    stream.extend(vec![0, 0, 0, 9, 1]);
    engine.on_transport_bytes(7, &stream);
    assert_eq!(engine.connection_table().get_send_window(7), Some(65546));
    assert_eq!(engine.connection_table().get_state(7), Some(ConnectionState::Closing));
    engine.on_transport_bytes(7, &[0, 0xFF, 0xFF, 0xFF, 0xFF]);
    assert_eq!(engine.connection_table().get_state(7), Some(ConnectionState::Closing));
}

#[test]
fn engine_queues_are_per_connection() {
    let mut engine = ProtocolEngine::new(RelayLimits {
        max_connections: 8,
        max_inflight_opens: 8,
        max_buffered_bytes: 100,
    });
    assert_eq!(engine.next_outbound_frame(1), None);
    assert_eq!(engine.queue_data_frame(1, &[1]), Err(EngineError::InsufficientCredits));
    assert!(engine.open_and_finalize(1));
    let too_long = vec![0u8; 65537];
    assert_eq!(engine.queue_data_frame(1, &too_long), Err(EngineError::InsufficientCredits));
    engine
        .queue_control_message(2, ControlMessage::Error { conn_id: 2, code: 5 });
    engine.queue_data_frame(1, &[0xAA]).unwrap();
    engine.queue_control_message(1, ControlMessage::Close { conn_id: 1, reason: 3 });
    assert_eq!(engine.next_outbound_frame(1), Some(vec![0, 0, 0, 8, 1, 1, 2, 0, 0, 0, 1, 3]));
    assert_eq!(engine.next_outbound_frame(1), Some(vec![0, 0, 0, 7, 1, 2, 0, 0, 0, 1, 0xAA]));
    assert_eq!(engine.next_outbound_frame(1), None);
    assert_eq!(engine.next_outbound_frame(2), Some(vec![0, 0, 0, 8, 1, 1, 4, 0, 0, 0, 2, 5]));
    let mut table = ConnectionTable::new(limits());
    table.set_default_window_size(2_000_000);
    assert_eq!(table.open_connection(1), Ok(()));
}

#[test]
fn engine_rejects_data_that_does_not_fit_a_frame() {
    let mut engine = ProtocolEngine::new(RelayLimits {
        max_connections: 8,
        max_inflight_opens: 8,
        max_buffered_bytes: 100,
    });
    assert!(engine.open_and_finalize(1));
    let credits = ControlMessage::WindowUpdate { conn_id: 1, credits: 70_000 };
    let mut wire = Vec::new();
    for _ in 0..2 {
        wire.extend(frame(1, FrameType::Control, &credits.encode()));
    }
    engine.on_transport_bytes(1, &wire);
    assert_eq!(engine.connection_table().get_send_window(1), Some(131072));
    let fits_window_only = vec![0u8; 131072];
    assert_eq!(engine.queue_data_frame(1, &fits_window_only), Ok(()));
    assert_eq!(engine.connection_table().get_send_window(1), Some(0));
}

#[test]
fn callbacks_feed_the_engine() {
    let engine = ProtocolEngine::new(RelayLimits {
        max_connections: 8,
        max_inflight_opens: 8,
        max_buffered_bytes: 100,
    });
    let mut callbacks = ProtocolCallbacks::new(engine, 3);
    let open = ControlMessage::Open { conn_id: 3, target_host: "h".to_string(), target_port: 1 };
    callbacks.on_bytes_received(&frame(1, FrameType::Control, &open.encode()));
    callbacks.on_transport_error(TransportError::ReadError);
    assert_eq!(callbacks.engine().connection_table().get_state(3), Some(ConnectionState::Init));
    let engine = callbacks.into_engine();
    assert_eq!(engine.connection_table().active_count(), 1);
}

#[test]
fn anonymity_engine_round_trip_and_partial_feeds() {
    let mut sender = AnonymityProtocolEngine::with_rng(RandomSource::seeded(1));
    sender.enqueue(vec![0xDE, 0xAD, 0xBE, 0xEF]);
    sender.enqueue(vec![0u8; MAX_PAYLOAD_LEN + 1]);
    sender.enqueue(vec![]);
    let frames = sender.drain_batch(8);
    assert_eq!(frames.len(), 2);
    let mut receiver = AnonymityProtocolEngine::new();
    let mut wire: Vec<u8> = frames.concat();
    assert_eq!(wire.len(), 16);
    let rest = wire.split_off(9);
    let first = receiver.on_transport_bytes(&wire);
    let second = receiver.on_transport_bytes(&rest);
    let mut all = first.clone();
    all.extend(second);
    all.sort();
    assert_eq!(all, vec![vec![], vec![0xDE, 0xAD, 0xBE, 0xEF]]);
    assert!(first.len() <= 1);
    assert_eq!(receiver.protocol_violations(), 0);
    assert!(receiver.on_transport_bytes(&[]).is_empty());
}

#[test]
fn anonymity_engine_drops_foreign_frames_and_counts_violations() {
    let mut engine = AnonymityProtocolEngine::new();
    let mut stream = frame(1, FrameType::Data, &[1]);
    stream.extend(frame(2, FrameType::Control, &[2]));
    stream.extend(vec![0, 0, 0, 3, 2, 9, 0xFF]);
    stream.extend(frame(2, FrameType::Data, &[3]));
    assert_eq!(engine.on_transport_bytes(&stream), vec![vec![3]]);
    assert_eq!(engine.protocol_violations(), 1);
    assert!(engine.on_transport_bytes(&[0, 0, 0, 3, 2, 9]).is_empty());
    assert_eq!(engine.protocol_violations(), 1);
    assert_eq!(engine.on_transport_bytes(&[0xFF]), Vec::<Vec<u8>>::new());
    assert_eq!(engine.protocol_violations(), 2);
    let mut garbage = vec![0, 0, 0, 1, 2, 2];
    garbage.extend(frame(2, FrameType::Data, &[4]));
    assert!(engine.on_transport_bytes(&garbage).is_empty());
    assert_eq!(engine.protocol_violations(), 3);
    assert_eq!(engine.on_transport_bytes(&frame(2, FrameType::Data, &[5])), vec![vec![5]]);
    assert!(engine.on_transport_bytes(&[0xFF, 0, 0, 0]).is_empty());
    assert_eq!(engine.protocol_violations(), 4);
    assert_eq!(engine.on_transport_bytes(&frame(2, FrameType::Data, &[6])), vec![vec![6]]);
}

#[test]
fn stream_events_name_what_is_at_the_front() {
    assert!(matches!(next_stream_event(&[0, 0]), StreamEvent::NeedMore));
    assert!(matches!(
        next_stream_event(&[0, 0, 0, 2, 1, 2, 9]),
        StreamEvent::Frame { version: 1, frame_type: FrameType::Data, consumed: 6, .. }
    ));
    assert!(matches!(
        next_stream_event(&[0, 0, 0, 3, 1, 7, 9, 9]),
        StreamEvent::Discard { consumed: 7 }
    ));
    assert!(matches!(next_stream_event(&[0, 0, 0, 3, 1, 7]), StreamEvent::NeedMore));
    assert!(matches!(
        next_stream_event(&[0, 0, 0, 0, 1]),
        StreamEvent::Discard { consumed: 5 }
    ));
    assert!(matches!(
        next_stream_event(&[1, 0, 0, 0]),
        StreamEvent::Discard { consumed: 4 }
    ));
}

#[test]
fn relay_engine_counts_protocol_violations() {
    let mut engine = ProtocolEngine::new(RelayLimits {
        max_connections: 8,
        max_inflight_opens: 8,
        max_buffered_bytes: 100,
    });
    assert_eq!(engine.protocol_violations(), 0);
    let credit = ControlMessage::WindowUpdate { conn_id: 0, credits: 10 };
    engine.on_transport_bytes(7, &frame(1, FrameType::Control, &credit.encode()));
    assert_eq!(engine.protocol_violations(), 0);
    // A frame of an unknown type is discarded.
    engine.on_transport_bytes(7, &[0, 0, 0, 3, 1, 77, 0]);
    assert_eq!(engine.protocol_violations(), 1);
    // A control payload with an unknown opcode cannot be read.
    engine.on_transport_bytes(7, &frame(1, FrameType::Control, &[200]));
    assert_eq!(engine.protocol_violations(), 2);
    // A data payload too short for its connection id cannot be read.
    engine.on_transport_bytes(7, &frame(1, FrameType::Data, &[1, 2]));
    assert_eq!(engine.protocol_violations(), 3);
    // Half a frame is no violation.
    engine.on_transport_bytes(7, &[0, 0, 0, 9, 1]);
    assert_eq!(engine.protocol_violations(), 3);
    assert!(engine.open_and_finalize(7) || engine.connection_table().get_state(7).is_some());
    assert_eq!(engine.protocol_violations(), 3);
}
