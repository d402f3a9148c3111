use hop6::message::{NetEvent, UiCommand};
use hop6::network::{
    link_step, listening_status, start_dial, stopped_status, LinkAction, LinkEvent, Manager,
    ManagerAction, ManagerEvent,
};
use hop6::wire::WireMsg;

fn dial(m: &mut Manager, onion: &str) -> u32 {
    let ev = ManagerEvent::Command(UiCommand::Connect { onion: onion.to_string() });
    match m.step(ev, "me.onion", 5) {
        ManagerAction::Dial { peer, onion: to } => {
            assert_eq!(to, onion);
            peer
        }
        _ => panic!("expected a dial"),
    }
}

fn send(m: &mut Manager, peer: u32, body: &str) -> ManagerAction {
    let ev = ManagerEvent::Command(UiCommand::Send { peer, body: body.to_string() });
    m.step(ev, "me.onion", 5)
}

fn text(ev: NetEvent) -> String {
    match ev {
        NetEvent::Status(s) => s,
        _ => panic!("expected a status"),
    }
}

#[test]
fn handles_are_fresh() {
    let mut m = Manager::new();
    assert_eq!(dial(&mut m, "a"), 1);
    match m.step(ManagerEvent::Inbound, "me.onion", 5) {
        ManagerAction::Accept { peer: 2, event } => {
            assert!(matches!(
                event,
                NetEvent::PeerConnected { peer: 2, onion, inbound: true } if onion.is_empty()
            ));
        }
        _ => panic!("expected an accept"),
    }
    assert!(matches!(m.step(ManagerEvent::Finished(1), "", 0), ManagerAction::Forget { peer: 1 }));
    assert_eq!(dial(&mut m, "a"), 3);
    assert!(!m.live.contains(&1) && m.live.contains(&2) && m.live.contains(&3));
}

#[test]
fn messages_are_routed_to_live_peers() {
    let mut m = Manager::new();
    assert!(matches!(send(&mut m, 1, "x"), ManagerAction::Idle));
    let id = dial(&mut m, "a");
    match send(&mut m, id, "hi") {
        ManagerAction::Forward { peer, line } => {
            assert_eq!(peer, id);
            assert_eq!(line, "{\"from_onion\":\"me.onion\",\"body\":\"hi\",\"ts\":5}");
        }
        _ => panic!("expected a line"),
    }
}

#[test]
fn disconnecting() {
    let mut m = Manager::new();
    let id = dial(&mut m, "a");
    let cmd = || ManagerEvent::Command(UiCommand::Disconnect { peer: 1 });
    match m.step(cmd(), "", 0) {
        ManagerAction::Close { peer, event } => {
            assert_eq!(peer, id);
            assert!(matches!(event, NetEvent::PeerDisconnected { peer: 1 }));
        }
        _ => panic!("expected a close"),
    }
    assert!(matches!(m.step(cmd(), "", 0), ManagerAction::Idle));
    assert!(matches!(send(&mut m, 1, "x"), ManagerAction::Idle));
}

#[test]
fn shutting_down() {
    let mut m = Manager::new();
    assert!(matches!(
        m.step(ManagerEvent::Command(UiCommand::Shutdown), "", 0),
        ManagerAction::Stop
    ));
    assert!(matches!(m.step(ManagerEvent::CommandsClosed, "", 0), ManagerAction::Stop));
}

#[test]
fn dialing() {
    let (d, status) = start_dial(" abc.onion:99 ");
    assert_eq!(d.service_id, "abc");
    assert_eq!(d.target, "abc.onion:80");
    assert_eq!(text(status), "dialing abc.onion:80 via Tor…");
    assert!(matches!(
        d.finish(7, None),
        NetEvent::PeerConnected { peer: 7, onion, inbound: false } if onion == "abc.onion"
    ));
    assert!(matches!(
        d.finish(7, Some("timeout".to_string())),
        NetEvent::PeerError { peer: 7, err } if err == "could not connect to abc.onion: timeout"
    ));
}

#[test]
fn a_peer_connection() {
    let msg = WireMsg::new("abc", "x", 3);
    match link_step(4, LinkEvent::Line(Ok(msg))) {
        LinkAction::Report(NetEvent::Message { peer: 4, msg }) => assert_eq!(msg.body, "x"),
        _ => panic!("expected a message"),
    }
    match link_step(4, LinkEvent::Line(Err("bad".to_string()))) {
        LinkAction::Report(ev) => assert_eq!(text(ev), "dropped malformed message: bad"),
        _ => panic!("expected a report"),
    }
    assert!(matches!(
        link_step(4, LinkEvent::ReadFailed("r".to_string())),
        LinkAction::Fail(NetEvent::PeerError { peer: 4, err }) if err == "r"
    ));
    assert!(matches!(
        link_step(4, LinkEvent::WriteFailed("w".to_string())),
        LinkAction::Fail(NetEvent::PeerError { peer: 4, err }) if err == "w"
    ));
    assert!(matches!(
        link_step(4, LinkEvent::Closed),
        LinkAction::Fail(NetEvent::PeerDisconnected { peer: 4 })
    ));
    assert!(matches!(
        link_step(4, LinkEvent::Outgoing("l".to_string())),
        LinkAction::Write(line) if line == "l"
    ));
    assert!(matches!(link_step(4, LinkEvent::Released), LinkAction::End));
}

#[test]
fn network_reports() {
    assert_eq!(
        text(listening_status(8081)),
        "listening for inbound peers on 127.0.0.1:8081"
    );
    assert_eq!(text(stopped_status("e")), "network manager stopped: e");
}

#[test]
fn handles_count_connections() {
    let mut m = Manager::new();
    for k in 1..=20u32 {
        let given = match m.step(ManagerEvent::Inbound, "", 0) {
            ManagerAction::Accept { peer, .. } => peer,
            _ => panic!("expected an accept"),
        };
        assert_eq!(given, k);
        if k % 3 == 0 {
            m.step(ManagerEvent::Finished(k), "", 0);
        }
        send(&mut m, k, "x");
    }
    assert_eq!(dial(&mut m, "a"), 21);
}

#[test]
fn one_report_for_one_disconnect() {
    let mut m = Manager::new();
    let id = dial(&mut m, "a");
    let cmd = ManagerEvent::Command(UiCommand::Disconnect { peer: id });
    assert!(matches!(
        m.step(cmd, "", 0),
        ManagerAction::Close { event: NetEvent::PeerDisconnected { peer: 1 }, .. }
    ));
    assert!(matches!(link_step(id, LinkEvent::Released), LinkAction::End));
    assert!(matches!(m.step(ManagerEvent::Finished(id), "", 1), ManagerAction::Forget { peer: 1 }));
    assert!(m.live.is_empty());
    assert_eq!(m.next_id, 2);
}
