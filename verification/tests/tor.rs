use hop6::files::{FileRead, Location};
use hop6::message::NetEvent;
use hop6::tor::{
    forwarding, identity_of, identity_path, identity_status, load_identity, load_or_generate_key, loopback,
    new_key, normalize_onion, publish_step, service_options, supervise, KeyError, PublishAction,
    PublishEvent, PublishFailure, SupervisorAction, SupervisorEvent,
};

fn status(ev: Option<NetEvent>) -> String {
    match ev {
        Some(NetEvent::Status(s)) => s,
        _ => panic!("expected a status"),
    }
}

#[test]
fn strips_suffix_and_port_and_whitespace() {
    assert_eq!(normalize_onion("abc"), "abc");
    assert_eq!(normalize_onion("abc.onion"), "abc");
    assert_eq!(normalize_onion("  abc.onion  "), "abc");
    assert_eq!(normalize_onion("abc.onion:80"), "abc");
    assert_eq!(normalize_onion("abc:80"), "abc");
}

#[test]
fn normalizing_odd_addresses() {
    assert_eq!(normalize_onion(""), "");
    assert_eq!(normalize_onion(" \t"), "");
    assert_eq!(normalize_onion(":80"), "");
    assert_eq!(normalize_onion(".onion"), "");
    assert_eq!(normalize_onion("abc.onion.onion"), "abc.onion");
    assert_eq!(normalize_onion("\u{3000}abc.onion:80:90 \n"), "abc");
}

#[test]
fn key_persists_the_same_onion_across_loads() {
    // First call generates; the key is then saved.
    let first = match load_identity::<String>(FileRead::Missing) {
        Ok(id) => id,
        Err(_) => panic!("no identity"),
    };
    assert!(first.created, "first load should create the key");

    // Second call reloads the same key → same .onion address.
    let second = match load_identity::<String>(FileRead::Bytes(first.key.to_vec())) {
        Ok(id) => id,
        Err(_) => panic!("no identity"),
    };
    assert!(!second.created, "second load should reuse the existing key");
    assert_eq!(first.onion, second.onion, "reloaded key must yield the same onion address");
    assert_eq!(first.key, second.key);
}

#[test]
fn corrupt_key_file_is_rejected() {
    let r = load_or_generate_key::<String>(FileRead::Bytes(b"too short".to_vec()));
    match r {
        Err(e) => {
            assert!(matches!(e, KeyError::Corrupt { found: 9 }));
            assert_eq!(
                e.describe("/k"),
                "identity file /k is corrupt (expected 64 bytes, found 9)"
            );
        }
        Ok(_) => panic!("accepted"),
    }
    assert!(load_or_generate_key::<String>(FileRead::Bytes(vec![0; 65])).is_err());
    assert!(load_or_generate_key::<String>(FileRead::Bytes(vec![])).is_err());
}

#[test]
fn unreadable_key_file_is_reported() {
    match load_identity(FileRead::Failed("denied".to_string())) {
        Err(e) => {
            assert_eq!(e.describe("/k"), "failed to read identity file /k");
            assert!(matches!(e, KeyError::Unreadable(cause) if cause == "denied"));
        }
        Ok(_) => panic!("accepted"),
    }
}

#[test]
fn generated_keys_differ() {
    let a = load_or_generate_key::<String>(FileRead::Missing);
    let b = load_or_generate_key::<String>(FileRead::Missing);
    match (a, b) {
        (Ok((x, true)), Ok((y, true))) => {
            assert_ne!(x, y);
            for key in [x, y] {
                assert_eq!(key[0] % 8, 0);
                assert!(64 <= key[31] && key[31] < 128);
            }
        }
        _ => panic!("expected two new keys"),
    }
}

#[test]
fn address_of_a_known_key() {
    let key: Vec<u8> = vec![
        48, 124, 131, 134, 79, 40, 51, 203, 66, 122, 46, 241, 192, 10, 1, 60, 253, 255, 39, 104, 217,
        128, 192, 163, 165, 32, 240, 6, 144, 77, 233, 79, 155, 79, 10, 254, 40, 11, 116, 106, 119, 134,
        132, 231, 84, 66, 80, 32, 87, 183, 71, 58, 3, 240, 143, 150, 245, 163, 142, 146, 135, 224, 31,
        143,
    ];
    match load_identity::<String>(FileRead::Bytes(key.clone())) {
        Ok(id) => {
            assert_eq!(id.key.to_vec(), key);
            assert_eq!(
                id.onion,
                "25njqamcweflpvkl73j4szahhihoc4xt3ktcgjnpaingr5yhkenl5sid.onion"
            );
        }
        Err(_) => panic!("rejected"),
    }
    // Any 64 bytes make an address of the same form.
    match load_identity::<String>(FileRead::Bytes(vec![0xff; 64])) {
        Ok(id) => {
            assert_eq!(id.onion.len(), 62);
            assert!(id.onion.ends_with(".onion"));
            assert!(id.onion[..56].chars().all(|c| matches!(c, 'a'..='z' | '2'..='7')));
        }
        Err(_) => panic!("rejected"),
    }
}

#[test]
fn identity_file_location() {
    assert!(matches!(identity_path(Some(1), Some(2)), Ok(Location::Given(1))));
    assert!(matches!(identity_path(Some(1), None), Ok(Location::Given(1))));
    match identity_path(None, Some("home")) {
        Ok(Location::UnderHome { home, names }) => {
            assert_eq!(home, "home");
            assert_eq!(names, vec![".config", "hop6", "identity.key"]);
        }
        _ => panic!("expected a place under home"),
    }
    match identity_path::<u8>(None, None) {
        Err(e) => assert_eq!(e, "$HOME is not set — set $HOP6_IDENTITY to choose an identity file"),
        Ok(_) => panic!("expected an error"),
    }
}

#[test]
fn identity_reports() {
    assert_eq!(status(Some(identity_status(true, "/k"))), "identity created new from /k");
    assert_eq!(status(Some(identity_status(false, "/k"))), "identity loaded from /k");
    assert_eq!(loopback(8080), "127.0.0.1:8080");
    assert_eq!(forwarding(65535), (80, "127.0.0.1:65535".to_string()));
}

#[test]
fn supervision() {
    let (report, next) = supervise(SupervisorEvent::Probed { alive: true });
    assert!(report.is_none());
    assert_eq!(next, SupervisorAction::Wait);
    let (report, next) = supervise(SupervisorEvent::Probed { alive: false });
    assert_eq!(status(report), "Tor control connection lost — re-publishing onion…");
    assert_eq!(next, SupervisorAction::Publish);
    let (report, next) = supervise(SupervisorEvent::Published(Err("no route".to_string())));
    assert_eq!(status(report), "re-publish failed: no route — retrying…");
    assert_eq!(next, SupervisorAction::Retry);
    let (report, next) = supervise(SupervisorEvent::Published(Ok(())));
    assert_eq!(status(report), "onion re-published — inbound restored");
    assert_eq!(next, SupervisorAction::Wait);
}

#[test]
fn publish_failures_in_words() {
    assert_eq!(
        PublishFailure::Unreachable.words(),
        "could not reach Tor control port at 127.0.0.1:9051 — is Tor running with `ControlPort 9051`?"
    );
    assert_eq!(PublishFailure::NoProtocolInfo.words(), "failed to read Tor PROTOCOLINFO");
    assert_eq!(
        PublishFailure::UnreadableCookie.words(),
        "failed to read Tor auth cookie (is the cookie file readable by this user?)"
    );
    assert_eq!(
        PublishFailure::NoAuthMethod.words(),
        "Tor offered no usable auth method — add `CookieAuthentication 1` to your torrc"
    );
    assert_eq!(PublishFailure::NotAuthenticated.words(), "Tor control-port authentication failed");
    assert_eq!(
        PublishFailure::Rejected.words(),
        "ADD_ONION failed (control port reachable but service publish rejected)"
    );
}

#[test]
fn publishing_goes_in_order() {
    assert_eq!(publish_step(PublishEvent::Begun), PublishAction::Connect);
    assert_eq!(publish_step(PublishEvent::Reached { ok: true }), PublishAction::LoadInfo);
    assert_eq!(publish_step(PublishEvent::InfoLoaded { ok: true }), PublishAction::MakeAuth);
    assert_eq!(publish_step(PublishEvent::AuthMade { usable: true }), PublishAction::Authenticate);
    assert_eq!(publish_step(PublishEvent::Authenticated { ok: true }), PublishAction::AddOnion);
    assert_eq!(publish_step(PublishEvent::Added { ok: true }), PublishAction::Hold);
    let failures = vec![
        (PublishEvent::Reached { ok: false }, PublishFailure::Unreachable),
        (PublishEvent::InfoLoaded { ok: false }, PublishFailure::NoProtocolInfo),
        (PublishEvent::CookieUnread, PublishFailure::UnreadableCookie),
        (PublishEvent::AuthMade { usable: false }, PublishFailure::NoAuthMethod),
        (PublishEvent::Authenticated { ok: false }, PublishFailure::NotAuthenticated),
        (PublishEvent::Added { ok: false }, PublishFailure::Rejected),
    ];
    for (ev, failure) in failures {
        assert_eq!(publish_step(ev), PublishAction::Fail(failure));
    }
}

#[test]
fn a_drawn_key_is_kept_as_it_is() {
    let mut drawn: [u8; 64] = [7; 64];
    drawn[0] = 8;
    match new_key::<String>(drawn) {
        Ok((key, created)) => {
            assert_eq!(key, drawn);
            assert!(created);
        }
        Err(_) => panic!("rejected"),
    }
    let made = identity_of(drawn, true);
    assert_eq!(made.key, drawn);
    assert!(made.created);
    match load_identity::<String>(FileRead::Bytes(drawn.to_vec())) {
        Ok(loaded) => assert_eq!(loaded.onion, made.onion),
        Err(_) => panic!("rejected"),
    }
    drawn[1] = 9;
    assert_ne!(identity_of(drawn, false).onion, made.onion);
    assert!(!identity_of(drawn, false).created);
}

#[test]
fn the_service_goes_with_its_connection() {
    let options = service_options();
    assert!(!options.detach);
    assert!(!options.non_anonymous);
    assert!(!options.max_streams_close_circuit);
    assert_eq!(options.max_num_streams, None);
}

#[test]
fn the_supervisor_does_not_give_up() {
    let mut reports = Vec::new();
    let mut actions = Vec::new();
    let events = vec![
        SupervisorEvent::Probed { alive: true },
        SupervisorEvent::Probed { alive: false },
        SupervisorEvent::Published(Err("one".to_string())),
        SupervisorEvent::Published(Err("two".to_string())),
        SupervisorEvent::Published(Ok(())),
        SupervisorEvent::Probed { alive: true },
    ];
    for ev in events {
        let (report, action) = supervise(ev);
        if report.is_some() {
            reports.push(status(report));
        }
        actions.push(action);
    }
    assert_eq!(
        actions,
        vec![
            SupervisorAction::Wait,
            SupervisorAction::Publish,
            SupervisorAction::Retry,
            SupervisorAction::Retry,
            SupervisorAction::Wait,
            SupervisorAction::Wait,
        ]
    );
    assert_eq!(
        reports,
        vec![
            "Tor control connection lost — re-publishing onion…",
            "re-publish failed: one — retrying…",
            "re-publish failed: two — retrying…",
            "onion re-published — inbound restored",
        ]
    );
}
