use rns_proxy::event::LinkId;
use rns_proxy::frame::{encode_frame, Frame, FrameType, MAX_PAYLOAD_LEN};
use rns_proxy::mux::{MuxHandle, SendError};
use rns_proxy::stream::split_packets;

fn link(v: u128) -> LinkId {
    LinkId { value: v }
}

#[test]
fn new_mux_has_no_link_and_refuses_sessions() {
    let mut m = MuxHandle::new();
    assert!(!m.is_connected());
    assert_eq!(m.link_id(), None);
    assert_eq!(m.open_session(), None);
}

#[test]
fn sessions_get_increasing_ids_from_one() {
    let mut m = MuxHandle::new();
    m.set_link_id(link(5));
    assert!(m.is_connected());
    assert_eq!(m.link_id(), Some(link(5)));
    assert_eq!(m.open_session(), Some(1));
    assert_eq!(m.open_session(), Some(2));
    assert_eq!(m.next_session_id(), 3);
    assert!(m.has_session(1));
    assert!(m.has_session(2));
    assert!(!m.has_session(3));
}

#[test]
fn dispatch_delivers_only_to_open_sessions() {
    let mut m = MuxHandle::new();
    m.set_link_id(link(1));
    let sid = m.open_session().unwrap();
    assert!(m.dispatch(&Frame::new(FrameType::Data, sid, b"a".to_vec())));
    assert!(m.has_session(sid));
    assert!(!m.dispatch(&Frame::new(FrameType::Data, sid + 1, b"a".to_vec())));
}

#[test]
fn close_ends_a_session() {
    let mut m = MuxHandle::new();
    m.set_link_id(link(1));
    let sid = m.open_session().unwrap();
    assert!(m.dispatch(&Frame::new(FrameType::Close, sid, Vec::new())));
    assert!(!m.has_session(sid));
    assert!(!m.dispatch(&Frame::new(FrameType::Data, sid, b"late".to_vec())));
}

#[test]
fn register_and_drop_sessions() {
    let mut m = MuxHandle::new();
    m.register_session(40);
    assert!(m.has_session(40));
    m.drop_session(40);
    assert!(!m.has_session(40));
    m.drop_session(41);
    assert!(!m.has_session(41));
}

#[test]
fn reset_forgets_link_sessions_and_buffer() {
    let mut m = MuxHandle::new();
    m.set_link_id(link(1));
    let sid = m.open_session().unwrap();
    let partial = m.receive_data(&[4, 0, 0]);
    assert!(partial.is_empty());
    m.reset();
    assert!(!m.is_connected());
    assert!(!m.has_session(sid));
    let frame = encode_frame(&Frame::new(FrameType::Data, 1, b"z".to_vec())).unwrap();
    assert_eq!(m.receive_data(&frame), vec![Frame::new(FrameType::Data, 1, b"z".to_vec())]);
    assert_eq!(m.open_session(), None);
    m.set_link_id(link(2));
    assert_eq!(m.open_session(), Some(2));
}

#[test]
fn send_needs_a_link() {
    let m = MuxHandle::new();
    assert_eq!(m.send(FrameType::Data, 1, b"x".to_vec()), Err(SendError::NotConnected));
}

#[test]
fn send_rejects_oversized_payload() {
    let mut m = MuxHandle::new();
    m.set_link_id(link(1));
    assert_eq!(
        m.send(FrameType::Data, 1, vec![0u8; MAX_PAYLOAD_LEN + 1]),
        Err(SendError::PayloadTooLarge)
    );
}

#[test]
fn send_then_receive_through_two_muxes() {
    let mut sender = MuxHandle::new();
    sender.set_link_id(link(3));
    let payload: Vec<u8> = (0..5000u32).map(|i| (i * 7) as u8).collect();
    let packets = sender.send(FrameType::Data, 9, payload.clone()).unwrap();
    let expected = split_packets(&encode_frame(&Frame::new(FrameType::Data, 9, payload.clone())).unwrap());
    assert_eq!(packets, expected);
    assert!(packets.iter().all(|p| !p.is_empty() && p.len() <= 431));
    let mut receiver = MuxHandle::new();
    let mut got = Vec::new();
    for p in &packets {
        got.extend(receiver.receive_data(p));
    }
    assert_eq!(got, vec![Frame::new(FrameType::Data, 9, payload)]);
}
