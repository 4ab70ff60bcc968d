use rns_proxy::client::{
    client_dispatch, link_setup_step, ClientDispatch, LinkSetup, PathWait, PathWaitAction,
    PathWaitStage,
};
use rns_proxy::event::{LinkId, ProxyEvent};
use rns_proxy::frame::{encode_frame, Frame, FrameType};
use rns_proxy::mux::MuxHandle;

fn link(v: u128) -> LinkId {
    LinkId { value: v }
}

#[test]
fn link_setup_waits_for_own_initiated_link() {
    let mut m = MuxHandle::new();
    let want = link(10);
    let other = ProxyEvent::LinkEstablished { link_id: link(11), is_initiator: true };
    assert_eq!(link_setup_step(&mut m, want, &other), LinkSetup::Pending);
    let incoming = ProxyEvent::LinkEstablished { link_id: want, is_initiator: false };
    assert_eq!(link_setup_step(&mut m, want, &incoming), LinkSetup::Pending);
    assert!(!m.is_connected());
    let closed_other = ProxyEvent::LinkClosed { link_id: link(11) };
    assert_eq!(link_setup_step(&mut m, want, &closed_other), LinkSetup::Pending);
    assert_eq!(link_setup_step(&mut m, want, &ProxyEvent::PathUpdated), LinkSetup::Pending);
    let ours = ProxyEvent::LinkEstablished { link_id: want, is_initiator: true };
    assert_eq!(link_setup_step(&mut m, want, &ours), LinkSetup::Established);
    assert_eq!(m.link_id(), Some(want));
}

#[test]
fn link_setup_fails_when_the_link_closes() {
    let mut m = MuxHandle::new();
    let want = link(10);
    let closed = ProxyEvent::LinkClosed { link_id: want };
    assert_eq!(link_setup_step(&mut m, want, &closed), LinkSetup::Failed);
    assert!(!m.is_connected());
}

#[test]
fn client_dispatch_delivers_frames_of_open_sessions() {
    let mut m = MuxHandle::new();
    m.set_link_id(link(1));
    let sid = m.open_session().unwrap();
    let mut data = encode_frame(&Frame::new(FrameType::ConnectOk, sid, Vec::new())).unwrap();
    data.extend(encode_frame(&Frame::new(FrameType::Data, sid + 5, b"stray".to_vec())).unwrap());
    data.extend(encode_frame(&Frame::new(FrameType::Close, sid, Vec::new())).unwrap());
    let (delivered, next) = client_dispatch(&mut m, ProxyEvent::LinkData { link_id: link(1), data });
    assert_eq!(next, ClientDispatch::Continue);
    assert_eq!(
        delivered,
        vec![
            Frame::new(FrameType::ConnectOk, sid, Vec::new()),
            Frame::new(FrameType::Close, sid, Vec::new())
        ]
    );
    assert!(!m.has_session(sid));
}

#[test]
fn client_dispatch_link_loss() {
    let mut m = MuxHandle::new();
    m.set_link_id(link(1));
    m.open_session();
    let (d, next) = client_dispatch(&mut m, ProxyEvent::LinkClosed { link_id: link(1) });
    assert!(d.is_empty());
    assert_eq!(next, ClientDispatch::LinkLost { transport_dead: false });
    assert!(!m.is_connected());
    m.set_link_id(link(2));
    let (_, next) = client_dispatch(&mut m, ProxyEvent::InterfaceDown);
    assert_eq!(next, ClientDispatch::LinkLost { transport_dead: true });
    assert!(!m.is_connected());
}

#[test]
fn client_dispatch_ignores_other_events() {
    let mut m = MuxHandle::new();
    m.set_link_id(link(1));
    let (d, next) = client_dispatch(&mut m, ProxyEvent::PathUpdated);
    assert!(d.is_empty());
    assert_eq!(next, ClientDispatch::Continue);
    let (_, next) = client_dispatch(
        &mut m,
        ProxyEvent::LinkEstablished { link_id: link(3), is_initiator: false },
    );
    assert_eq!(next, ClientDispatch::Continue);
    assert!(m.is_connected());
}

#[test]
fn path_wait_looks_once_then_recalls_every_second() {
    let (mut w, a) = PathWait::start();
    assert_eq!(a, PathWaitAction::EnsurePath { timeout_secs: 30 });
    assert_eq!(w.step(false), PathWaitAction::RecallIdentity);
    assert_eq!(w.step(false), PathWaitAction::Sleep { secs: 1 });
    assert_eq!(w.step(true), PathWaitAction::RecallIdentity);
    assert_eq!(w.step(true), PathWaitAction::Found);
    assert_eq!(w.stage, PathWaitStage::Found);
    assert_eq!(w.step(false), PathWaitAction::Found);
}
