use hop6::app::{App, AppAction};
use hop6::app_model::{KeyCode, KeyEvent};
use hop6::message::{NetEvent, UiCommand};
use hop6::network::{link_step, LinkAction, LinkEvent, Manager, ManagerAction, ManagerEvent};
use hop6::wire::WireMsg;

fn read(line: &str) -> WireMsg {
    let value: serde_json::Value = serde_json::from_str(line).unwrap();
    WireMsg::new(
        value.get("from_onion").unwrap().as_str().unwrap(),
        value.get("body").unwrap().as_str().unwrap(),
        value.get("ts").unwrap().as_u64().unwrap(),
    )
}

#[test]
fn a_message_crosses_from_one_user_to_another() {
    let mut alice = App::new();
    let mut manager = Manager::new();
    let connect = UiCommand::Connect { onion: "bob".to_string() };
    let to = match manager.step(ManagerEvent::Command(connect), "alicealice.onion", 1) {
        ManagerAction::Dial { peer, .. } => peer,
        _ => panic!("expected a dial"),
    };
    alice.apply_net_event(NetEvent::PeerConnected { peer: to, onion: "bob.onion".into(), inbound: false });

    let mut bob = App::new();
    bob.apply_net_event(NetEvent::PeerConnected { peer: 7, onion: String::new(), inbound: true });

    for c in "  say \"hi\" \\ … \u{1}é ".chars() {
        alice.on_key(KeyEvent::new(KeyCode::Char(c), false));
    }
    let cmd = match alice.on_key(KeyEvent::new(KeyCode::Enter, false)) {
        Some(AppAction::Command(cmd)) => cmd,
        _ => panic!("expected a command"),
    };
    let line = match manager.step(ManagerEvent::Command(cmd), "alicealice.onion", 99) {
        ManagerAction::Forward { peer, line } => {
            assert_eq!(peer, to);
            line
        }
        _ => panic!("expected a line"),
    };
    assert!(!line.contains('\n'));

    match link_step(7, LinkEvent::Line(Ok(read(&line)))) {
        LinkAction::Report(ev) => bob.apply_net_event(ev),
        _ => panic!("expected a report"),
    }
    let heard = &bob.peers[&7].log[0];
    assert!(!heard.from_me);
    assert_eq!(heard.who, "aliceali…");
    assert_eq!(heard.body, "say \"hi\" \\ … \u{1}é");
    assert_eq!(bob.peers[&7].onion, "alicealice.onion");
}
