use hop6::app::App;
use hop6::app_model::{KeyCode, KeyEvent};
use hop6::cli::{local_port, parse_port_arg, run_ui, UiEvent, UiFlow};
use hop6::message::{NetEvent, UiCommand};

fn port(args: &[&str]) -> Option<u16> {
    let mut list: Vec<String> = Vec::new();
    for a in args {
        list.push(a.to_string());
    }
    parse_port_arg(&list)
}

#[test]
fn ports_on_the_command_line() {
    assert_eq!(port(&[]), None);
    assert_eq!(port(&["--port", "8081"]), Some(8081));
    assert_eq!(port(&["-p", "8081"]), Some(8081));
    assert_eq!(port(&["--port=8081"]), Some(8081));
    assert_eq!(port(&["x", "-v", "--port", "1", "--port", "2"]), Some(1));
    assert_eq!(port(&["--port"]), None);
    assert_eq!(port(&["--port", "70000", "--port=5"]), None);
    assert_eq!(port(&["--port="]), None);
    assert_eq!(port(&["--ports", "5"]), None);
    assert_eq!(local_port(&vec![]), 8080);
    assert_eq!(local_port(&vec!["-p".to_string(), "x".to_string()]), 8080);
    assert_eq!(local_port(&vec!["--port=0".to_string()]), 0);
}

#[test]
fn the_terminal_loop() {
    let mut app = App::new();
    let key = |code: KeyCode, press: bool| UiEvent::Key { press, key: KeyEvent::new(code, false) };
    assert!(matches!(run_ui(&mut app, key(KeyCode::Char('/'), true)), UiFlow::Continue));
    assert!(matches!(run_ui(&mut app, key(KeyCode::Char('/'), false)), UiFlow::Continue));
    assert_eq!(app.input, "/");
    for c in "c abc".chars() {
        run_ui(&mut app, key(KeyCode::Char(c), true));
    }
    match run_ui(&mut app, key(KeyCode::Enter, true)) {
        UiFlow::Forward(UiCommand::Connect { onion }) => assert_eq!(onion, "abc"),
        _ => panic!("expected a command"),
    }
    assert!(matches!(run_ui(&mut app, UiEvent::OtherInput), UiFlow::Continue));
    assert!(matches!(run_ui(&mut app, UiEvent::Tick), UiFlow::Continue));
    let ev = NetEvent::Status("s".to_string());
    assert!(matches!(run_ui(&mut app, UiEvent::Net(ev)), UiFlow::Continue));
    assert_eq!(app.status, "s");
    assert!(matches!(run_ui(&mut app, key(KeyCode::Esc, false)), UiFlow::Continue));
    assert!(matches!(run_ui(&mut app, key(KeyCode::Esc, true)), UiFlow::Stop));
    assert!(matches!(run_ui(&mut app, UiEvent::InputClosed), UiFlow::Stop));
}

#[test]
fn failing_input_ends_the_loop_with_its_error() {
    let mut app = App::new();
    app.input = "half a line".to_string();
    match run_ui(&mut app, UiEvent::InputFailed("device gone".to_string())) {
        UiFlow::Fail(e) => assert_eq!(e, "device gone"),
        _ => panic!("expected an error"),
    }
    assert_eq!(app.input, "half a line");
}
