use rns_proxy::frame::{encode_frame, Frame, FrameType};
use rns_proxy::stream::{reassemble, split_packets, LINK_MDU};

fn enc(t: FrameType, sid: u32, payload: &[u8]) -> Vec<u8> {
    encode_frame(&Frame::new(t, sid, payload.to_vec())).unwrap()
}

#[test]
fn reassemble_whole_stream() {
    let mut stream = enc(FrameType::Data, 1, b"hello");
    stream.extend(enc(FrameType::Close, 2, b""));
    let mut buf = Vec::new();
    let frames = reassemble(&mut buf, &stream);
    assert_eq!(
        frames,
        vec![
            Frame::new(FrameType::Data, 1, b"hello".to_vec()),
            Frame::new(FrameType::Close, 2, Vec::new())
        ]
    );
    assert!(buf.is_empty());
}

#[test]
fn reassemble_gives_the_same_frames_at_every_split_point() {
    let mut stream = enc(FrameType::Connect, 3, b"example.com:80");
    stream.extend(enc(FrameType::Data, 3, &[1, 2, 3, 4, 5]));
    stream.extend(enc(FrameType::Close, 3, b""));
    let mut whole_buf = Vec::new();
    let whole = reassemble(&mut whole_buf, &stream);
    assert_eq!(whole.len(), 3);
    for cut in 0..=stream.len() {
        let mut buf = Vec::new();
        let mut frames = reassemble(&mut buf, &stream[..cut]);
        frames.extend(reassemble(&mut buf, &stream[cut..]));
        assert_eq!(frames, whole);
        assert!(buf.is_empty());
    }
}

#[test]
fn reassemble_byte_by_byte() {
    let stream = enc(FrameType::Data, 9, &[7u8; 600]);
    let mut buf = Vec::new();
    let mut frames = Vec::new();
    for b in &stream {
        frames.extend(reassemble(&mut buf, std::slice::from_ref(b)));
    }
    assert_eq!(frames, vec![Frame::new(FrameType::Data, 9, vec![7u8; 600])]);
    assert!(buf.is_empty());
}

#[test]
fn reassemble_keeps_an_incomplete_header() {
    let mut buf = Vec::new();
    let frames = reassemble(&mut buf, &[4, 0, 0]);
    assert!(frames.is_empty());
    assert_eq!(buf, vec![4, 0, 0]);
}

#[test]
fn reassemble_keeps_an_incomplete_payload() {
    let stream = enc(FrameType::Data, 1, b"abcdef");
    let mut buf = Vec::new();
    let frames = reassemble(&mut buf, &stream[..9]);
    assert!(frames.is_empty());
    assert_eq!(buf, stream[..9].to_vec());
}

#[test]
fn reassemble_skips_frames_of_unknown_type() {
    let mut stream = vec![0x09, 0, 0, 0, 1, 0, 2, 0xde, 0xad];
    stream.extend(enc(FrameType::Data, 1, b"x"));
    let mut buf = Vec::new();
    let frames = reassemble(&mut buf, &stream);
    assert_eq!(frames, vec![Frame::new(FrameType::Data, 1, b"x".to_vec())]);
}

#[test]
fn split_packets_cuts_at_link_mdu() {
    let bytes: Vec<u8> = (0..1000u32).map(|i| (i % 251) as u8).collect();
    let packets = split_packets(&bytes);
    assert_eq!(LINK_MDU, 431);
    assert_eq!(packets.len(), 3);
    assert_eq!(packets[0].len(), 431);
    assert_eq!(packets[1].len(), 431);
    assert_eq!(packets[2].len(), 138);
    assert_eq!(packets.concat(), bytes);
}

#[test]
fn split_packets_edge_sizes() {
    assert!(split_packets(&[]).is_empty());
    assert_eq!(split_packets(&[1u8; 431]).len(), 1);
    assert_eq!(split_packets(&[1u8; 432]).len(), 2);
    assert_eq!(split_packets(&[1u8; 432])[1], vec![1u8]);
}

#[test]
fn packets_of_a_frame_reassemble_into_the_frame() {
    let f = Frame::new(FrameType::Data, 77, (0..2000u32).map(|i| i as u8).collect());
    let packets = split_packets(&encode_frame(&f).unwrap());
    let mut buf = Vec::new();
    let mut got = Vec::new();
    for p in &packets {
        got.extend(reassemble(&mut buf, p));
    }
    assert_eq!(got, vec![f]);
    assert!(buf.is_empty());
}
