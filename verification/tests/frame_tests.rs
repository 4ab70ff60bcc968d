use rns_proxy::relay::{frame_for_read, relay_step, RelayStep, RELAY_READ_SIZE};
use rns_proxy::frame::{encode_frame, Frame, FrameError, FrameType, HEADER_LEN, MAX_PAYLOAD_LEN};

#[test]
fn frame_type_codes_match_the_protocol_table() {
    assert_eq!(FrameType::Connect.to_u8(), 0x01);
    assert_eq!(FrameType::ConnectOk.to_u8(), 0x02);
    assert_eq!(FrameType::ConnectErr.to_u8(), 0x03);
    assert_eq!(FrameType::Data.to_u8(), 0x04);
    assert_eq!(FrameType::Close.to_u8(), 0x05);
}

#[test]
fn frame_type_codes_read_back() {
    for t in [
        FrameType::Connect,
        FrameType::ConnectOk,
        FrameType::ConnectErr,
        FrameType::Data,
        FrameType::Close,
    ] {
        assert_eq!(FrameType::from_u8(t.to_u8()), Some(t));
    }
    assert_eq!(FrameType::from_u8(0), None);
    assert_eq!(FrameType::from_u8(6), None);
    assert_eq!(FrameType::from_u8(0xff), None);
}

#[test]
fn encode_frame_writes_header_big_endian_then_payload() {
    let f = Frame::new(FrameType::Data, 0x0102_0304, vec![0xaa, 0xbb]);
    let bytes = encode_frame(&f).unwrap();
    assert_eq!(bytes, vec![0x04, 0x01, 0x02, 0x03, 0x04, 0x00, 0x02, 0xaa, 0xbb]);
}

#[test]
fn encode_frame_empty_payload_is_header_only() {
    let f = Frame::new(FrameType::Close, 7, Vec::new());
    let bytes = encode_frame(&f).unwrap();
    assert_eq!(bytes.len(), HEADER_LEN);
    assert_eq!(bytes, vec![0x05, 0, 0, 0, 7, 0, 0]);
}

#[test]
fn encode_frame_largest_payload() {
    let f = Frame::new(FrameType::Data, 1, vec![9u8; MAX_PAYLOAD_LEN]);
    let bytes = encode_frame(&f).unwrap();
    assert_eq!(bytes.len(), HEADER_LEN + MAX_PAYLOAD_LEN);
    assert_eq!(&bytes[5..7], &[0xff, 0xff]);
}

#[test]
fn encode_frame_rejects_oversized_payload() {
    let f = Frame::new(FrameType::Data, 1, vec![0u8; MAX_PAYLOAD_LEN + 1]);
    assert_eq!(encode_frame(&f), Err(FrameError::PayloadTooLarge));
}

#[test]
fn duplicate_copies_every_field() {
    let f = Frame::new(FrameType::ConnectErr, 42, b"no route".to_vec());
    assert_eq!(f.duplicate(), f);
}

#[test]
fn relay_rules() {
    assert_eq!(relay_step(FrameType::Data), RelayStep::Write);
    assert_eq!(relay_step(FrameType::Close), RelayStep::Stop);
    assert_eq!(relay_step(FrameType::ConnectOk), RelayStep::Ignore);
    assert_eq!(frame_for_read(0), FrameType::Close);
    assert_eq!(frame_for_read(12), FrameType::Data);
    assert!(RELAY_READ_SIZE <= MAX_PAYLOAD_LEN);
}
