use hop6::app::{has_short_form, short_onion, App, AppAction};
use hop6::app_model::{KeyCode, KeyEvent};
use hop6::message::{NetEvent, UiCommand};
use hop6::wire::WireMsg;

fn key(c: char) -> KeyEvent {
    KeyEvent::new(KeyCode::Char(c), false)
}

fn press(app: &mut App, code: KeyCode) -> Option<AppAction> {
    app.on_key(KeyEvent::new(code, false))
}

fn type_line(app: &mut App, text: &str) -> Option<AppAction> {
    for c in text.chars() {
        app.on_key(key(c));
    }
    app.on_key(KeyEvent::new(KeyCode::Enter, false))
}

fn connect(app: &mut App, peer: u32, onion: &str, inbound: bool) {
    app.apply_net_event(NetEvent::PeerConnected { peer, onion: onion.to_string(), inbound });
}

fn last_system(app: &App) -> &str {
    app.system.last().unwrap().as_str()
}

#[test]
fn slash_connect_emits_connect_command() {
    let mut app = App::new();
    let action = type_line(&mut app, "/connect abc.onion");
    match action {
        Some(AppAction::Command(UiCommand::Connect { onion })) => assert_eq!(onion, "abc.onion"),
        _ => panic!("expected a Connect command"),
    }
}

#[test]
fn esc_and_ctrl_c_quit() {
    let mut app = App::new();
    assert!(matches!(
        app.on_key(KeyEvent::new(KeyCode::Esc, false)),
        Some(AppAction::Quit)
    ));
    assert!(matches!(
        app.on_key(KeyEvent::new(KeyCode::Char('c'), true)),
        Some(AppAction::Quit)
    ));
}

#[test]
fn typing_without_active_peer_does_not_send() {
    let mut app = App::new();
    let action = type_line(&mut app, "hello");
    assert!(action.is_none(), "no active peer → no Send");
}

#[test]
fn message_to_connected_peer_round_trips_through_state() {
    let mut app = App::new();
    // A peer connects (outbound) and becomes active automatically.
    app.apply_net_event(NetEvent::PeerConnected {
        peer: 1,
        onion: "abc.onion".into(),
        inbound: false,
    });
    assert_eq!(app.active, Some(1));

    // Sending appends our own line and emits a Send command.
    let action = type_line(&mut app, "hi there");
    match action {
        Some(AppAction::Command(UiCommand::Send { peer, body })) => {
            assert_eq!(peer, 1);
            assert_eq!(body, "hi there");
        }
        _ => panic!("expected a Send command"),
    }
    assert_eq!(app.peers[&1].log.len(), 1);
    assert!(app.peers[&1].log[0].from_me);

    // An inbound message appends to the same conversation and learns identity.
    app.apply_net_event(NetEvent::Message {
        peer: 1,
        msg: WireMsg::new("abc.onion", "hey back", 1),
    });
    assert_eq!(app.peers[&1].log.len(), 2);
    assert!(!app.peers[&1].log[1].from_me);
}

#[test]
fn inbound_peer_learns_identity_from_first_message() {
    let mut app = App::new();
    app.apply_net_event(NetEvent::PeerConnected {
        peer: 2,
        onion: String::new(), // unknown for inbound
        inbound: true,
    });
    assert_eq!(app.peers[&2].onion, "");
    app.apply_net_event(NetEvent::Message {
        peer: 2,
        msg: WireMsg::new("xyz.onion", "hello", 1),
    });
    assert_eq!(app.peers[&2].onion, "xyz.onion");
}

#[test]
fn start_up_state() {
    let app = App::new();
    assert_eq!(app.own_onion, None);
    assert_eq!(app.status, "starting — publishing onion service…");
    assert!(app.peers.is_empty() && app.order.is_empty());
    assert_eq!(app.active, None);
    assert_eq!(app.system, vec!["Welcome to hop6. Type /help for commands."]);
    assert_eq!(app.input, "");
    assert_eq!(app.scroll, 0);
}

#[test]
fn short_form_of_an_address() {
    assert_eq!(short_onion("abcdefghijkl.onion"), "abcdefgh…");
    assert_eq!(short_onion("abcdefgh.onion"), "abcdefgh");
    assert_eq!(short_onion("abc.onion"), "abc");
    assert_eq!(short_onion("abc"), "abc");
    assert_eq!(short_onion(".onion"), "");
    assert_eq!(short_onion("ääääää"), "ääää…");
    assert!(has_short_form("ääääää"));
    assert!(!has_short_form("abcdefgäh"));
    assert!(has_short_form("abcdefä"));
}

#[test]
fn backspace_and_other_keys() {
    let mut app = App::new();
    assert!(press(&mut app, KeyCode::Backspace).is_none());
    assert_eq!(app.input, "");
    app.on_key(key('a'));
    app.on_key(key('…'));
    app.on_key(KeyEvent::new(KeyCode::Char('x'), true));
    assert_eq!(app.input, "a…x");
    press(&mut app, KeyCode::Backspace);
    press(&mut app, KeyCode::Backspace);
    assert_eq!(app.input, "a");
    assert!(press(&mut app, KeyCode::Other).is_none());
    assert_eq!(app.input, "a");
    app.on_tick();
    assert_eq!(app.input, "a");
}

#[test]
fn scrolling_saturates() {
    let mut app = App::new();
    press(&mut app, KeyCode::PageDown);
    assert_eq!(app.scroll, 0);
    press(&mut app, KeyCode::PageUp);
    press(&mut app, KeyCode::PageUp);
    assert_eq!(app.scroll, 10);
    press(&mut app, KeyCode::PageDown);
    assert_eq!(app.scroll, 5);
    app.scroll = 3;
    press(&mut app, KeyCode::PageDown);
    assert_eq!(app.scroll, 0);
    app.scroll = usize::MAX - 2;
    press(&mut app, KeyCode::PageUp);
    assert_eq!(app.scroll, usize::MAX);
}

#[test]
fn focus_cycles_through_the_panes() {
    let mut app = App::new();
    press(&mut app, KeyCode::Tab);
    assert_eq!(app.active, None);
    connect(&mut app, 4, "", true);
    connect(&mut app, 9, "", true);
    assert_eq!(app.active, Some(4));
    assert_eq!(app.order, vec![4, 9]);
    app.scroll = 7;
    press(&mut app, KeyCode::Tab);
    assert_eq!((app.active, app.scroll), (Some(9), 0));
    press(&mut app, KeyCode::Down);
    assert_eq!(app.active, None);
    press(&mut app, KeyCode::Down);
    assert_eq!(app.active, Some(4));
    press(&mut app, KeyCode::Up);
    assert_eq!(app.active, None);
    press(&mut app, KeyCode::BackTab);
    assert_eq!(app.active, Some(9));
    // A focus outside the order counts as the system log.
    app.active = Some(77);
    press(&mut app, KeyCode::Tab);
    assert_eq!(app.active, Some(4));
    // Without peers the focus falls back to the system log.
    app.order.clear();
    press(&mut app, KeyCode::Tab);
    assert_eq!(app.active, None);
}

#[test]
fn slash_commands_and_aliases() {
    for (long, short) in [("/connect  abc ", "/c abc"), ("/connect\tabc", " /c\u{3000}abc")] {
        for line in [long, short] {
            let mut app = App::new();
            match type_line(&mut app, line) {
                Some(AppAction::Command(UiCommand::Connect { onion })) => assert_eq!(onion, "abc"),
                _ => panic!("expected a Connect command"),
            }
            assert_eq!(last_system(&app), "connecting to abc…");
            assert_eq!(app.input, "");
        }
    }
    for line in ["/quit", "/q", "/q now"] {
        assert!(matches!(type_line(&mut App::new(), line), Some(AppAction::Quit)));
    }
    for line in ["/help", "/h"] {
        let mut app = App::new();
        assert!(type_line(&mut app, line).is_none());
        assert_eq!(app.system.len(), 8);
        assert_eq!(app.system[1], "commands:");
        assert_eq!(app.system[7], "keys: Tab/↑/↓ switch conversation · PgUp/PgDn scroll · Enter send");
    }
    for line in ["/disconnect", "/d"] {
        let mut app = App::new();
        assert!(type_line(&mut app, line).is_none());
        assert_eq!(last_system(&app), "no active conversation to disconnect");
        connect(&mut app, 3, "", true);
        assert!(matches!(
            type_line(&mut app, line),
            Some(AppAction::Command(UiCommand::Disconnect { peer: 3 }))
        ));
    }
    let mut app = App::new();
    assert!(type_line(&mut app, "/connect   ").is_none());
    assert_eq!(last_system(&app), "usage: /connect <onion-address>");
    assert!(type_line(&mut app, "/nope x").is_none());
    assert_eq!(last_system(&app), "unknown command: /nope (try /help)");
    assert!(type_line(&mut app, "/").is_none());
    assert_eq!(last_system(&app), "unknown command: / (try /help)");
    let before = app.system.len();
    assert!(type_line(&mut app, "  \t ").is_none());
    assert_eq!(app.system.len(), before);
}

#[test]
fn listing_peers() {
    let mut app = App::new();
    type_line(&mut app, "/peers");
    assert_eq!(last_system(&app), "no peers yet");
    connect(&mut app, 1, "abcdefghijkl.onion", false);
    connect(&mut app, 20, "", true);
    app.apply_net_event(NetEvent::PeerDisconnected { peer: 20 });
    type_line(&mut app, "/peers");
    let n = app.system.len();
    assert_eq!(app.system[n - 3], "peers:");
    assert_eq!(app.system[n - 2], "  [1] abcdefgh… (out, online)");
    assert_eq!(app.system[n - 1], "  [20] (incoming) (in, offline)");
    // An entry of the order without a conversation is passed over.
    app.order.push(99);
    type_line(&mut app, "/peers");
    assert_eq!(app.system.len(), n + 3);
}

#[test]
fn sending_needs_a_connected_peer() {
    let mut app = App::new();
    type_line(&mut app, "hello");
    assert_eq!(last_system(&app), "no active conversation — use /connect <onion> first");
    connect(&mut app, 1, "abc.onion", false);
    app.apply_net_event(NetEvent::PeerError { peer: 1, err: "gone".into() });
    assert_eq!(last_system(&app), "[1] error: gone");
    assert!(type_line(&mut app, "hello").is_none());
    assert_eq!(last_system(&app), "that peer is disconnected");
    assert!(app.peers[&1].log.is_empty());
    app.active = Some(5);
    let before = app.system.len();
    assert!(type_line(&mut app, "hello").is_none());
    assert_eq!(app.system.len(), before);
}

#[test]
fn our_own_lines_carry_our_name() {
    let mut app = App::new();
    connect(&mut app, 1, "abc.onion", false);
    type_line(&mut app, " one ");
    assert_eq!((app.peers[&1].log[0].who.as_str(), app.peers[&1].log[0].body.as_str()), ("me", "one"));
    app.apply_net_event(NetEvent::OwnOnionReady { onion: "mnopqrstuvwx.onion".into() });
    assert_eq!(last_system(&app), "your identity: mnopqrstuvwx.onion");
    assert_eq!(app.status, "online · mnopqrst…");
    assert_eq!(app.own_onion.as_deref(), Some("mnopqrstuvwx.onion"));
    app.scroll = 4;
    type_line(&mut app, "two");
    assert_eq!(app.peers[&1].log[1].who, "mnopqrst…");
    assert_eq!(app.scroll, 0);
}

#[test]
fn connection_events() {
    let mut app = App::new();
    connect(&mut app, 1, "abc.onion", false);
    assert_eq!(last_system(&app), "[1] connected (outgoing): abc");
    connect(&mut app, 2, "", true);
    assert_eq!(last_system(&app), "[2] connected (incoming): (incoming)");
    // The focus stays where it was.
    assert_eq!(app.active, Some(1));
    app.apply_net_event(NetEvent::PeerDisconnected { peer: 1 });
    assert_eq!(last_system(&app), "[1] disconnected: abc");
    assert!(!app.peers[&1].connected);
    // Connecting again keeps the place, the address and the history.
    app.apply_net_event(NetEvent::Message { peer: 1, msg: WireMsg::new("abc.onion", "x", 1) });
    connect(&mut app, 1, "", true);
    assert_eq!(app.order, vec![1, 2]);
    assert_eq!(app.peers[&1].onion, "abc.onion");
    assert_eq!(app.peers[&1].log.len(), 1);
    assert!(app.peers[&1].connected && app.peers[&1].inbound);
    // Events about nobody.
    let before = app.system.len();
    app.apply_net_event(NetEvent::PeerDisconnected { peer: 9 });
    assert_eq!(app.system.len(), before);
    app.apply_net_event(NetEvent::PeerError { peer: 9, err: "e".into() });
    assert_eq!(last_system(&app), "[9] error: e");
    app.apply_net_event(NetEvent::Message { peer: 9, msg: WireMsg::new("q", "x", 1) });
    assert_eq!(last_system(&app), "[9] message from unknown peer dropped");
    app.apply_net_event(NetEvent::Status("dialing".into()));
    assert_eq!((app.status.as_str(), last_system(&app)), ("dialing", "dialing"));
}

#[test]
fn messages_learn_once_and_scroll_the_focused_pane() {
    let mut app = App::new();
    connect(&mut app, 1, "", true);
    connect(&mut app, 2, "", true);
    app.scroll = 6;
    app.apply_net_event(NetEvent::Message { peer: 2, msg: WireMsg::new("", "anon", 1) });
    assert_eq!(app.scroll, 6);
    assert_eq!(app.peers[&2].label(), "(incoming)");
    app.apply_net_event(NetEvent::Message { peer: 2, msg: WireMsg::new("first.onion", "a", 1) });
    app.apply_net_event(NetEvent::Message { peer: 2, msg: WireMsg::new("second.onion", "b", 1) });
    assert_eq!(app.peers[&2].label(), "first");
    assert_eq!(app.peers[&2].log[2].who, "second");
    assert_eq!(app.peers[&2].log[2].body, "b");
    assert!(app.peers[&1].log.is_empty());
    app.apply_net_event(NetEvent::Message { peer: 1, msg: WireMsg::new("z", "c", 1) });
    assert_eq!(app.scroll, 0);
}

#[test]
fn events_with_unshowable_names_are_told_apart() {
    let mut app = App::new();
    let bad = "abcdefgäh";
    assert!(!app.can_apply(&NetEvent::OwnOnionReady { onion: bad.into() }));
    assert!(!app.can_apply(&NetEvent::PeerConnected { peer: 1, onion: bad.into(), inbound: false }));
    let msg = NetEvent::Message { peer: 1, msg: WireMsg::new(bad, "x", 1) };
    assert!(app.can_apply(&msg));
    connect(&mut app, 1, "", true);
    assert!(!app.can_apply(&msg));
    assert!(app.can_apply(&NetEvent::PeerError { peer: 1, err: bad.into() }));
    assert!(app.can_apply(&NetEvent::Status(bad.into())));
    assert!(app.can_apply(&NetEvent::PeerDisconnected { peer: 1 }));
    assert!(app.can_apply(&NetEvent::PeerConnected { peer: 1, onion: String::new(), inbound: true }));
}

#[test]
fn going_on_visits_every_pane_once() {
    let mut app = App::new();
    for peer in [4, 9, 2] {
        connect(&mut app, peer, "", true);
    }
    app.active = Some(9);
    let mut seen = Vec::new();
    for _ in 0..4 {
        app.cycle_active(1);
        seen.push(app.active);
    }
    assert_eq!(seen, vec![Some(2), None, Some(4), Some(9)]);
    app.cycle_active(6);
    assert_eq!(app.active, None);
    app.cycle_active(-6);
    assert_eq!(app.active, Some(9));
    app.cycle_active(i32::MIN);
    app.cycle_active(i32::MAX);
    assert_eq!(app.active, Some(4));
}

#[test]
fn commands_and_their_aliases_do_the_same() {
    for (long, alias) in [("connect", "c"), ("disconnect", "d"), ("quit", "q"), ("help", "h")] {
        for arg in ["", " ", " abc", "\tx y"] {
            let mut a = App::new();
            let mut b = App::new();
            connect(&mut a, 3, "", true);
            connect(&mut b, 3, "", true);
            let x = a.handle_command(&format!("{long}{arg}"));
            let y = b.handle_command(&format!("{alias}{arg}"));
            assert_eq!(a.system, b.system);
            match (x, y) {
                (None, None) => assert!(long == "help" || long == "connect"),
                (Some(AppAction::Quit), Some(AppAction::Quit)) => assert_eq!(long, "quit"),
                (
                    Some(AppAction::Command(UiCommand::Disconnect { peer: 3 })),
                    Some(AppAction::Command(UiCommand::Disconnect { peer: 3 })),
                ) => assert_eq!(long, "disconnect"),
                (
                    Some(AppAction::Command(UiCommand::Connect { onion: p })),
                    Some(AppAction::Command(UiCommand::Connect { onion: q })),
                ) => {
                    assert_eq!(long, "connect");
                    assert_eq!(p, q);
                }
                _ => panic!("they differ"),
            }
        }
    }
}
