use hop6::wire::WireMsg;

fn field<'a>(back: &'a serde_json::Value, name: &str) -> &'a str {
    back.get(name).unwrap().as_str().unwrap()
}

#[test]
fn round_trips_through_a_line() {
    let msg = WireMsg::new("abc.onion", "hello, tor", 1_700_000_000);
    let line = msg.to_line().unwrap();
    assert!(!line.contains('\n'), "a line must not embed newlines");
    let back: serde_json::Value = serde_json::from_str(&line).unwrap();
    assert_eq!(field(&back, "from_onion"), "abc.onion");
    assert_eq!(field(&back, "body"), "hello, tor");
    assert_eq!(back.get("ts").unwrap().as_u64(), Some(1_700_000_000));
}

#[test]
fn the_line_is_written_out() {
    let line = WireMsg::new("abc.onion", "hello, tor", 1_700_000_000).to_line().unwrap();
    assert_eq!(line, "{\"from_onion\":\"abc.onion\",\"body\":\"hello, tor\",\"ts\":1700000000}");
    let line = WireMsg::new("", "a\"b\\c\n\r\t\u{8}\u{c}\u{1}\u{1f}/é…\u{7f}\u{1f600}", 0).to_line().unwrap();
    assert_eq!(
        line,
        "{\"from_onion\":\"\",\"body\":\"a\\\"b\\\\c\\n\\r\\t\\b\\f\\u0001\\u001f/é…\u{7f}\u{1f600}\",\"ts\":0}"
    );
}

#[test]
fn every_character_survives_a_line() {
    for u in 0..0x1_1000u32 {
        if let Some(c) = char::from_u32(u) {
            let body = format!("x{c}y");
            let line = WireMsg::new("o", &body, u64::MAX).to_line().unwrap();
            assert!(!line.contains('\n') && !line.contains('\r'));
            if u < 0x300 || u % 97 == 0 {
                let back: serde_json::Value = serde_json::from_str(&line).unwrap();
                assert_eq!(field(&back, "body"), body);
                assert_eq!(back.get("ts").unwrap().as_u64(), Some(u64::MAX));
            }
        }
    }
}

#[test]
fn different_messages_have_different_lines() {
    let line = |a: &str, b: &str, ts: u64| WireMsg::new(a, b, ts).to_line().unwrap();
    let lines = vec![
        line("a", "b", 1),
        line("b", "a", 1),
        line("a", "b", 11),
        line("a\",\"body\":\"b", "", 1),
        line("a", "\\", 1),
        line("a", "\\\\", 1),
        line("a", "\n", 1),
        line("a", "\\n", 1),
    ];
    for i in 0..lines.len() {
        for j in 0..i {
            assert_ne!(lines[i], lines[j]);
        }
    }
}
