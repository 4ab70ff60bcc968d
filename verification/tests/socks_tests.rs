use rns_proxy::frame::{Frame, FrameType};
use rns_proxy::socks::{SocksAction, SocksEvent, SocksReply, SocksSession, SocksStage};

fn reply(r: &SocksAction) -> Option<SocksReply> {
    match r {
        SocksAction::Reply { reply } => Some(*reply),
        _ => None,
    }
}

fn connect(s: &mut SocksSession) -> Vec<SocksAction> {
    s.step(SocksEvent::Command { tcp_connect: true, host: "example.com".to_string(), port: 443 })
}

#[test]
fn non_connect_command_is_refused() {
    let mut s = SocksSession::new(3);
    let acts = s.step(SocksEvent::Command { tcp_connect: false, host: "h".to_string(), port: 1 });
    assert_eq!(acts.len(), 1);
    assert_eq!(reply(&acts[0]), Some(SocksReply::CommandNotSupported));
    assert_eq!(s.stage, SocksStage::Finished);
}

#[test]
fn connect_sends_the_connect_frame() {
    let mut s = SocksSession::new(3);
    let acts = connect(&mut s);
    assert_eq!(acts.len(), 1);
    match &acts[0] {
        SocksAction::SendFrame { frame_type, payload } => {
            assert_eq!(*frame_type, FrameType::Connect);
            assert_eq!(payload, &b"example.com:443".to_vec());
        }
        other => panic!("unexpected {:?}", other),
    }
    assert_eq!(s.stage, SocksStage::AwaitConnectResult);
}

#[test]
fn conn_ok_leads_to_relay() {
    let mut s = SocksSession::new(3);
    connect(&mut s);
    let acts = s.step(SocksEvent::SessionFrame { frame: Frame::new(FrameType::Data, 3, Vec::new()) });
    assert!(acts.is_empty());
    let acts = s.step(SocksEvent::SessionFrame { frame: Frame::new(FrameType::ConnectOk, 3, Vec::new()) });
    assert_eq!(reply(&acts[0]), Some(SocksReply::Succeeded));
    let acts = s.step(SocksEvent::ReplySent { ok: true });
    assert!(matches!(acts[0], SocksAction::Relay));
    assert_eq!(s.stage, SocksStage::Relaying);
}

#[test]
fn failed_success_reply_closes_the_session() {
    let mut s = SocksSession::new(3);
    connect(&mut s);
    s.step(SocksEvent::SessionFrame { frame: Frame::new(FrameType::ConnectOk, 3, Vec::new()) });
    let acts = s.step(SocksEvent::ReplySent { ok: false });
    assert_eq!(acts.len(), 2);
    assert!(matches!(&acts[0], SocksAction::SendFrame { frame_type: FrameType::Close, payload } if payload.is_empty()));
    assert!(matches!(acts[1], SocksAction::DropSession));
    assert_eq!(s.stage, SocksStage::Finished);
}

#[test]
fn conn_err_channel_closed_and_timeout_replies() {
    for (ev, want) in [
        (
            SocksEvent::SessionFrame { frame: Frame::new(FrameType::ConnectErr, 3, b"refused".to_vec()) },
            SocksReply::GeneralFailure,
        ),
        (SocksEvent::ChannelClosed, SocksReply::GeneralFailure),
        (SocksEvent::TimedOut, SocksReply::TtlExpired),
    ] {
        let mut s = SocksSession::new(3);
        connect(&mut s);
        let acts = s.step(ev);
        assert_eq!(acts.len(), 2);
        assert_eq!(reply(&acts[0]), Some(want));
        assert!(matches!(acts[1], SocksAction::DropSession));
        assert_eq!(s.stage, SocksStage::Finished);
    }
}

#[test]
fn events_out_of_order_change_nothing() {
    let mut s = SocksSession::new(8);
    assert!(s.step(SocksEvent::TimedOut).is_empty());
    assert!(s.step(SocksEvent::ReplySent { ok: true }).is_empty());
    assert_eq!(s.stage, SocksStage::AwaitCommand);
    assert_eq!(s.session_id, 8);
}
