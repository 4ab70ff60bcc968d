use rns_proxy::reconnect::{Reconnect, ReconnectAction, ReconnectStage};

#[test]
fn reconnect_starts_with_a_one_second_wait() {
    let (r, a) = Reconnect::start(false);
    assert_eq!(a, ReconnectAction::Sleep { secs: 1 });
    assert_eq!(r.consecutive_failures, 0);
    assert_eq!(r.stage, ReconnectStage::Waiting);
}

#[test]
fn dead_transport_recreates_the_node_first() {
    let (mut r, a) = Reconnect::start(true);
    assert_eq!(a, ReconnectAction::RecreateNode);
    assert_eq!(r.step(false), ReconnectAction::Sleep { secs: 5 });
    assert_eq!(r.step(true), ReconnectAction::RecreateNode);
    assert_eq!(r.step(true), ReconnectAction::Sleep { secs: 1 });
    assert_eq!(r.consecutive_failures, 0);
}

#[test]
fn successful_reconnect_sequence() {
    let (mut r, _) = Reconnect::start(false);
    assert_eq!(r.step(true), ReconnectAction::EnsurePath { timeout_secs: 15 });
    assert_eq!(r.step(true), ReconnectAction::RecallIdentity);
    assert_eq!(r.step(true), ReconnectAction::EstablishLink);
    assert_eq!(r.step(true), ReconnectAction::Reconnected);
    assert_eq!(r.stage, ReconnectStage::Done);
    assert_eq!(r.step(true), ReconnectAction::Reconnected);
}

#[test]
fn failures_double_the_wait_then_recreate_the_node() {
    let (mut r, _) = Reconnect::start(false);
    assert_eq!(r.step(true), ReconnectAction::EnsurePath { timeout_secs: 15 });
    assert_eq!(r.step(false), ReconnectAction::Sleep { secs: 2 });
    assert_eq!(r.step(true), ReconnectAction::EnsurePath { timeout_secs: 15 });
    assert_eq!(r.step(true), ReconnectAction::RecallIdentity);
    assert_eq!(r.step(false), ReconnectAction::Sleep { secs: 4 });
    assert_eq!(r.step(true), ReconnectAction::EnsurePath { timeout_secs: 15 });
    assert_eq!(r.step(true), ReconnectAction::RecallIdentity);
    assert_eq!(r.step(true), ReconnectAction::EstablishLink);
    assert_eq!(r.step(false), ReconnectAction::RecreateNode);
    assert_eq!(r.consecutive_failures, 3);
    assert_eq!(r.delay, 8);
    assert_eq!(r.step(true), ReconnectAction::Sleep { secs: 1 });
    assert_eq!(r.delay, 1);
}

#[test]
fn wait_never_exceeds_eight_seconds() {
    let (mut r, mut a) = Reconnect::start(false);
    for i in 0..200 {
        if let ReconnectAction::Sleep { secs } = a {
            assert!(secs <= 8 || secs == 5);
        }
        assert!(r.delay <= 8);
        assert!(r.consecutive_failures <= 3);
        a = r.step(i % 3 == 0);
    }
}
