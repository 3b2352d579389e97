use seer::fleet::NodeVersion;
use seer::node_socket::{initial_phase, socket_step, Frame, SocketAction, SocketEvent, SocketPhase};

#[test]
fn handshake_registers_announced_node() {
    let p = initial_phase();
    let (p, a) = socket_step(p, SocketEvent::IdReply(Some(7)));
    assert_eq!(p, SocketPhase::AwaitingVersion { id: 7 });
    assert!(matches!(a, SocketAction::SendGetVersion));
    let ver = Some(NodeVersion { major: 1, minor: 4, patch: 0 });
    let (p, a) = socket_step(p, SocketEvent::VersionReply(ver));
    assert_eq!(p, SocketPhase::Relaying { id: 7 });
    assert!(matches!(a, SocketAction::Register { id: 7, version } if version == ver));
}

#[test]
fn handshake_without_version_still_registers() {
    let (p, a) = socket_step(SocketPhase::AwaitingVersion { id: 3 }, SocketEvent::SendFailed);
    assert_eq!(p, SocketPhase::Relaying { id: 3 });
    assert!(matches!(a, SocketAction::Register { id: 3, version: None }));
}

#[test]
fn zero_or_missing_id_ends_without_registration() {
    let (p, a) = socket_step(initial_phase(), SocketEvent::IdReply(Some(0)));
    assert_eq!(p, SocketPhase::Done);
    assert!(matches!(a, SocketAction::Stop));
    let (p, a) = socket_step(initial_phase(), SocketEvent::IdReply(None));
    assert_eq!(p, SocketPhase::Done);
    assert!(matches!(a, SocketAction::Stop));
    let (p, a) = socket_step(initial_phase(), SocketEvent::SendFailed);
    assert_eq!(p, SocketPhase::Done);
    assert!(matches!(a, SocketAction::Stop));
}

#[test]
fn relay_answers_ping_and_forwards_responses() {
    let r = SocketPhase::Relaying { id: 9 };
    let (p, a) = socket_step(r, SocketEvent::Received(Frame::Ping(vec![1, 2])));
    assert_eq!(p, r);
    assert!(matches!(a, SocketAction::SendPong(ref v) if v == &vec![1u8, 2]));
    let (p, a) = socket_step(r, SocketEvent::Received(Frame::Binary { decoded: true }));
    assert_eq!(p, r);
    assert!(matches!(a, SocketAction::Forward));
    let (_, a) = socket_step(r, SocketEvent::Received(Frame::Binary { decoded: false }));
    assert!(matches!(a, SocketAction::Nothing));
    let (p, a) = socket_step(r, SocketEvent::Received(Frame::Error));
    assert_eq!(p, r);
    assert!(matches!(a, SocketAction::Nothing));
}

#[test]
fn relay_end_unregisters() {
    let r = SocketPhase::Relaying { id: 9 };
    for ev in [
        SocketEvent::Received(Frame::Close),
        SocketEvent::Received(Frame::End),
        SocketEvent::CommandsClosed,
        SocketEvent::SendFailed,
    ] {
        let (p, a) = socket_step(r, ev);
        assert_eq!(p, SocketPhase::Done);
        assert!(matches!(a, SocketAction::Unregister { id: 9 }));
    }
}

#[test]
fn command_reply_cycle() {
    let r = SocketPhase::Relaying { id: 5 };
    let (p, a) = socket_step(r, SocketEvent::CommandReady);
    assert_eq!(p, SocketPhase::AwaitingReply { id: 5 });
    assert!(matches!(a, SocketAction::SendCommand));
    let (p2, a2) = socket_step(p, SocketEvent::Received(Frame::Binary { decoded: true }));
    assert_eq!(p2, r);
    assert!(matches!(a2, SocketAction::Forward));
    // A close frame in place of a reply is skipped, a failed read ends the relay.
    let (p3, a3) = socket_step(p, SocketEvent::Received(Frame::Close));
    assert_eq!(p3, r);
    assert!(matches!(a3, SocketAction::Nothing));
    let (p4, a4) = socket_step(p, SocketEvent::Received(Frame::Error));
    assert_eq!(p4, SocketPhase::Done);
    assert!(matches!(a4, SocketAction::Unregister { id: 5 }));
}

#[test]
fn done_stays_done() {
    let (p, a) = socket_step(SocketPhase::Done, SocketEvent::CommandReady);
    assert_eq!(p, SocketPhase::Done);
    assert!(matches!(a, SocketAction::Nothing));
}
