use rns_proxy::event::{LinkId, ProxyEvent};
use rns_proxy::frame::{encode_frame, Frame, FrameType};
use rns_proxy::mux::SendError;
use rns_proxy::payload::encode_connect_payload;
use rns_proxy::server::{ServerAction, ServerControl, ServerLinks};
use rns_proxy::stream::split_packets;

fn link(v: u128) -> LinkId {
    LinkId { value: v }
}

fn data(link_id: LinkId, frames: &[Frame]) -> ProxyEvent {
    let mut bytes = Vec::new();
    for f in frames {
        bytes.extend(encode_frame(f).unwrap());
    }
    ProxyEvent::LinkData { link_id, data: bytes }
}

#[test]
fn server_ignores_outgoing_links() {
    let mut s = ServerLinks::new();
    let (a, c) = s.handle_event(ProxyEvent::LinkEstablished { link_id: link(1), is_initiator: true });
    assert!(a.is_empty());
    assert_eq!(c, ServerControl::Continue);
    assert!(!s.has_link(link(1)));
}

#[test]
fn server_opens_a_connection_for_connect() {
    let mut s = ServerLinks::new();
    s.handle_event(ProxyEvent::LinkEstablished { link_id: link(1), is_initiator: false });
    assert!(s.has_link(link(1)));
    let payload = encode_connect_payload("example.com", 80);
    let (a, c) = s.handle_event(data(link(1), &[Frame::new(FrameType::Connect, 4, payload)]));
    assert_eq!(c, ServerControl::Continue);
    assert_eq!(a.len(), 1);
    match &a[0] {
        ServerAction::OpenConnection { link_id, session_id, host, port } => {
            assert_eq!(*link_id, link(1));
            assert_eq!(*session_id, 4);
            assert_eq!(host, "example.com");
            assert_eq!(*port, 80);
        }
        other => panic!("unexpected {:?}", other),
    }
    let (a, _) = s.handle_event(data(link(1), &[Frame::new(FrameType::Data, 4, b"GET /".to_vec())]));
    match &a[0] {
        ServerAction::Deliver { link_id, frame } => {
            assert_eq!(*link_id, link(1));
            assert_eq!(*frame, Frame::new(FrameType::Data, 4, b"GET /".to_vec()));
        }
        other => panic!("unexpected {:?}", other),
    }
}

#[test]
fn server_answers_invalid_connect_with_conn_err() {
    let mut s = ServerLinks::new();
    s.handle_event(ProxyEvent::LinkEstablished { link_id: link(2), is_initiator: false });
    let (a, _) = s.handle_event(data(link(2), &[Frame::new(FrameType::Connect, 6, b"nohost".to_vec())]));
    match &a[0] {
        ServerAction::SendFrame { link_id, frame } => {
            assert_eq!(*link_id, link(2));
            assert_eq!(*frame, Frame::new(FrameType::ConnectErr, 6, b"invalid payload".to_vec()));
        }
        other => panic!("unexpected {:?}", other),
    }
}

#[test]
fn server_drops_frames_for_unknown_sessions_and_links() {
    let mut s = ServerLinks::new();
    let (a, _) = s.handle_event(data(link(9), &[Frame::new(FrameType::Data, 1, b"x".to_vec())]));
    assert!(a.is_empty());
    s.handle_event(ProxyEvent::LinkEstablished { link_id: link(9), is_initiator: false });
    let (a, _) = s.handle_event(data(link(9), &[Frame::new(FrameType::Data, 1, b"x".to_vec())]));
    assert!(a.is_empty());
    let (a, _) = s.handle_event(data(link(9), &[Frame::new(FrameType::ConnectOk, 1, Vec::new())]));
    assert!(a.is_empty());
}

#[test]
fn server_close_ends_the_session() {
    let mut s = ServerLinks::new();
    s.handle_event(ProxyEvent::LinkEstablished { link_id: link(1), is_initiator: false });
    let payload = encode_connect_payload("h", 1);
    s.handle_event(data(link(1), &[Frame::new(FrameType::Connect, 4, payload)]));
    let (a, _) = s.handle_event(data(
        link(1),
        &[Frame::new(FrameType::Close, 4, Vec::new()), Frame::new(FrameType::Data, 4, b"late".to_vec())],
    ));
    assert_eq!(a.len(), 1);
    assert!(matches!(&a[0], ServerAction::Deliver { frame, .. } if frame.frame_type == FrameType::Close));
}

#[test]
fn server_link_close_and_transport_loss() {
    let mut s = ServerLinks::new();
    s.handle_event(ProxyEvent::LinkEstablished { link_id: link(1), is_initiator: false });
    s.handle_event(ProxyEvent::LinkEstablished { link_id: link(2), is_initiator: false });
    let (_, c) = s.handle_event(ProxyEvent::LinkClosed { link_id: link(1) });
    assert_eq!(c, ServerControl::Continue);
    assert!(!s.has_link(link(1)));
    assert!(s.has_link(link(2)));
    let (_, c) = s.handle_event(ProxyEvent::PathUpdated);
    assert_eq!(c, ServerControl::Continue);
    let (_, c) = s.handle_event(ProxyEvent::InterfaceDown);
    assert_eq!(c, ServerControl::TransportLost);
    assert!(!s.has_link(link(2)));
}

#[test]
fn server_sends_on_known_links_only() {
    let mut s = ServerLinks::new();
    assert_eq!(s.send_frame(link(1), FrameType::ConnectOk, 4, Vec::new()), Err(SendError::NotConnected));
    s.handle_event(ProxyEvent::LinkEstablished { link_id: link(1), is_initiator: false });
    let packets = s.send_frame(link(1), FrameType::ConnectOk, 4, Vec::new()).unwrap();
    assert_eq!(packets, split_packets(&[2, 0, 0, 0, 4, 0, 0]));
    s.drop_session(link(1), 4);
    s.drop_session(link(7), 4);
}
