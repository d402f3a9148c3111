use hop6::app::App;
use hop6::message::NetEvent;
use hop6::ui::{
    conn_suffix, cursor_position, render_chat, render_input, render_roster, render_status,
    roster_item, Color, Span, Style,
};
use hop6::wire::WireMsg;

fn style(fg: Option<Color>, bold: bool, reversed: bool) -> Style {
    Style { fg, bold, reversed }
}

fn flat(spans: &Vec<Span>) -> String {
    let mut out = String::new();
    for s in spans {
        out.push_str(&s.text);
    }
    out
}

fn two_peers() -> App {
    let mut app = App::new();
    app.apply_net_event(NetEvent::PeerConnected { peer: 1, onion: "abcdefghij.onion".into(), inbound: false });
    app.apply_net_event(NetEvent::PeerConnected { peer: 2, onion: String::new(), inbound: true });
    app.apply_net_event(NetEvent::PeerDisconnected { peer: 2 });
    app
}

#[test]
fn the_status_bar() {
    let mut app = App::new();
    let bar = render_status(&app);
    assert_eq!(
        flat(&bar),
        "hop6  you: (publishing onion service…)   starting — publishing onion service…"
    );
    assert_eq!(bar[0].style, style(Some(Color::Magenta), true, false));
    assert_eq!(bar[1].style, style(None, false, false));
    assert_eq!(bar[2].style, style(Some(Color::Cyan), false, false));
    assert_eq!(bar[4].style, style(Some(Color::Yellow), false, false));
    app.apply_net_event(NetEvent::OwnOnionReady { onion: "abc.onion".into() });
    assert_eq!(flat(&render_status(&app)), "hop6  you: abc.onion   online · abc");
}

#[test]
fn the_roster() {
    let mut app = two_peers();
    let items = render_roster(&app);
    assert_eq!(items.len(), 3);
    assert_eq!(items[0].text, "  *system");
    assert_eq!(items[0].style, style(Some(Color::Green), false, false));
    assert_eq!(items[1].text, "▶ [1] abcdefgh…");
    assert_eq!(items[1].style, style(Some(Color::Green), true, true));
    assert_eq!(items[2].text, "  [2] (incoming)");
    assert_eq!(items[2].style, style(Some(Color::DarkGray), false, false));
    app.active = None;
    assert_eq!(render_roster(&app)[0].text, "▶ *system");
    app.order.push(50);
    assert_eq!(render_roster(&app).len(), 3);
    assert_eq!(roster_item("x", true, false).style, style(Some(Color::DarkGray), true, true));
}

#[test]
fn the_chat_pane() {
    let mut app = two_peers();
    app.apply_net_event(NetEvent::Message { peer: 1, msg: WireMsg::new("abcdefghij.onion", "hi", 1) });
    let (title, lines) = render_chat(&app, 10);
    assert_eq!(title, " chat · [1] abcdefgh… ");
    assert_eq!(lines.len(), 1);
    assert_eq!(flat(&lines[0]), "abcdefgh…: hi");
    assert_eq!(lines[0][0].style, style(Some(Color::Green), true, false));
    assert_eq!(lines[0][1].style, style(None, false, false));
    app.active = Some(2);
    assert_eq!(render_chat(&app, 10).0, " chat · [2] (incoming) (offline) ");
    app.active = Some(9);
    let (title, lines) = render_chat(&app, 10);
    assert_eq!((title.as_str(), lines.len()), (" chat ", 0));
    app.active = None;
    let (title, lines) = render_chat(&app, 100);
    assert_eq!(title, " system ");
    assert_eq!(lines.len(), app.system.len());
    assert_eq!(lines[0][0].style, style(Some(Color::Gray), false, false));
    assert_eq!(conn_suffix(true), "");
    assert_eq!(conn_suffix(false), " (offline)");
}

#[test]
fn our_lines_are_cyan() {
    let mut app = two_peers();
    app.input = "yo".to_string();
    app.on_key(hop6::app_model::KeyEvent::new(hop6::app_model::KeyCode::Enter, false));
    let (_, lines) = render_chat(&app, 10);
    assert_eq!(flat(&lines[0]), "me: yo");
    assert_eq!(lines[0][0].style, style(Some(Color::Cyan), true, false));
}

#[test]
fn the_window_scrolls() {
    let mut app = App::new();
    for i in 1..=9 {
        app.apply_net_event(NetEvent::Status(format!("{i}")));
    }
    let shown = |app: &App, height: u16| {
        let (_, lines) = render_chat(app, height);
        let mut out = String::new();
        for l in &lines {
            out.push_str(&l[0].text);
        }
        out
    };
    assert_eq!(shown(&app, 5), "789");
    app.scroll = 2;
    assert_eq!(shown(&app, 5), "567");
    app.scroll = 8;
    assert_eq!(shown(&app, 5), "Welcome to hop6. Type /help for commands.1");
    app.scroll = 100;
    assert_eq!(shown(&app, 5), "");
    app.scroll = 0;
    assert_eq!(shown(&app, 2), "");
    assert_eq!(shown(&app, 0), "");
}

#[test]
fn the_input_line() {
    let mut app = App::new();
    app.input = "hé".to_string();
    let line = render_input(&app);
    assert_eq!(flat(&line), "> hé");
    assert_eq!(line[0].style, style(Some(Color::Magenta), false, false));
    assert_eq!(cursor_position(0, 20, &app.input), (5, 21));
    assert_eq!(cursor_position(10, 0, ""), (13, 1));
    let long = "x".repeat(65536 + 4);
    assert_eq!(cursor_position(1, 1, &long), (8, 2));
}
