use anon_pipeline::frame::{FrameDecoder, FrameEncoder, FrameError, FrameType};

#[test]
fn frame_round_trip_scenario() {
    let mut wire: Vec<u8> = Vec::new();
    let payload = vec![0xDE, 0xAD, 0xBE, 0xEF];
    FrameEncoder::encode_frame(&mut wire, 2, FrameType::Data, &payload).unwrap();
    assert_eq!(wire, vec![0x00, 0x00, 0x00, 0x06, 0x02, 0x02, 0xDE, 0xAD, 0xBE, 0xEF]);
    let (version, frame_type, decoded, consumed) = FrameDecoder::decode_frame(&wire).unwrap();
    assert_eq!(version, 2);
    assert_eq!(frame_type, FrameType::Data);
    assert_eq!(decoded, payload);
    assert_eq!(consumed, 10);
}

#[test]
fn frame_prefixes_need_more() {
    let mut wire: Vec<u8> = Vec::new();
    FrameEncoder::encode_frame(&mut wire, 2, FrameType::Control, &[1, 2, 3]).unwrap();
    for n in 0..wire.len() {
        assert_eq!(FrameDecoder::decode_frame(&wire[..n]), Err(FrameError::Truncated));
    }
    assert!(FrameDecoder::decode_frame(&wire).is_ok());
}
