use hop6::text::{is_white_space, parse_u16, part_before, push_decimal, split_word, strip_end, strip_start, trim};

#[test]
fn white_space_is_that_of_unicode() {
    for u in 0..=0x10_ffffu32 {
        if let Some(c) = char::from_u32(u) {
            assert_eq!(is_white_space(c), c.is_whitespace());
        }
    }
}

#[test]
fn trimming() {
    for s in ["", " ", " \t\n", "a", " a ", "\u{a0}a b\u{2003}", "a b", "\u{200b}a ", "é \u{3000}"] {
        assert_eq!(trim(s), s.trim());
    }
}

#[test]
fn splitting() {
    assert_eq!(split_word("connect abc def"), ("connect", "abc def"));
    assert_eq!(split_word("connect  abc"), ("connect", " abc"));
    assert_eq!(split_word("connect"), ("connect", ""));
    assert_eq!(split_word(" x"), ("", "x"));
    assert_eq!(split_word(""), ("", ""));
    assert_eq!(part_before("a:b:c", ':'), "a");
    assert_eq!(part_before("abc", ':'), "abc");
    assert_eq!(strip_end("abc.onion", ".onion"), "abc");
    assert_eq!(strip_end("onion", ".onion"), "onion");
    assert_eq!(strip_start("/help", "/"), Some("help"));
    assert_eq!(strip_start("help", "/"), None);
    assert_eq!(strip_start("", "/"), None);
}

#[test]
fn decimals() {
    for n in [0, 7, 9, 10, 99, 100, 1_000_000, u32::MAX as u64, u64::MAX] {
        let mut s = String::from("n=");
        push_decimal(&mut s, n);
        assert_eq!(s, format!("n={n}"));
    }
}

#[test]
fn reading_ports() {
    for s in [
        "", "+", "-1", "-0", "0", "+0", "00080", "80", "+80", "++80", "65535", "65536", "99999", "4294967376",
        "99999999999999999999", "8 0", " 80", "80 ", "8a", "٣", "1_0",
    ] {
        assert_eq!(parse_u16(s), s.parse::<u16>().ok(), "{s}");
    }
    for n in 0..=u16::MAX {
        assert_eq!(parse_u16(&n.to_string()), Some(n));
    }
}
