use podping_tray::health::{parse_status, Status};
use podping_tray::sse::{
    fields_match, health_handler, info_handler, matches_filter, peers_handler, sse_event,
    EventFields, EventFilter, HealthInputs, PeerEntry, SseEvent,
};
use podping_tray::text_map::TextMap;

fn filter(medium: Option<&str>, reason: Option<&str>, sender: Option<&str>) -> EventFilter {
    EventFilter {
        medium: medium.map(|s| s.to_string()),
        reason: reason.map(|s| s.to_string()),
        sender: sender.map(|s| s.to_string()),
    }
}

const EVENT: &str = r#"{"medium":"podcast","reason":"update","sender":"abcdef","n":1}"#;

#[test]
fn events_pass_by_their_members() {
    assert!(matches_filter(EVENT, &EventFilter::default()));
    assert!(matches_filter(EVENT, &filter(Some("podcast"), None, None)));
    assert!(!matches_filter(EVENT, &filter(Some("pod"), None, None)));
    assert!(matches_filter(EVENT, &filter(None, Some("update"), None)));
    assert!(!matches_filter(EVENT, &filter(None, Some("live"), None)));
    assert!(matches_filter(EVENT, &filter(None, None, Some("abc"))));
    assert!(matches_filter(EVENT, &filter(None, None, Some(""))));
    assert!(matches_filter(EVENT, &filter(None, None, Some("abcdef"))));
    assert!(!matches_filter(EVENT, &filter(None, None, Some("bc"))));
    assert!(!matches_filter(EVENT, &filter(None, None, Some("abcdefg"))));
    assert!(matches_filter(EVENT, &filter(Some("podcast"), Some("update"), Some("a"))));
    assert!(!matches_filter(EVENT, &filter(Some("podcast"), Some("live"), Some("a"))));
}

#[test]
fn unreadable_events_pass() {
    for text in ["", "not json", "{\"medium\":", "{} trailing"] {
        assert!(matches_filter(text, &filter(Some("x"), Some("y"), Some("z"))), "{}", text);
    }
}

#[test]
fn members_that_are_no_text_do_not_pass() {
    for text in ["{}", "[]", "\"medium\"", "null", "3", r#"{"medium":1}"#, r#"{"medium":null}"#,
        r#"{"medium":["x"]}"#, r#"{"Medium":"x"}"#, r#"{"a":{"medium":"x"}}"#]
    {
        assert!(!matches_filter(text, &filter(Some("x"), None, None)), "{}", text);
        assert!(!matches_filter(text, &filter(None, None, Some(""))), "{}", text);
        assert!(matches_filter(text, &EventFilter::default()), "{}", text);
    }
}

#[test]
fn escapes_and_repeated_members_are_read() {
    assert!(matches_filter(r#"{"medium":"p\u00f6d\n"}"#, &filter(Some("pöd\n"), None, None)));
    assert!(matches_filter(r#"{"medium":"a","medium":"b"}"#, &filter(Some("b"), None, None)));
    assert!(!matches_filter(r#"{"medium":"a","medium":"b"}"#, &filter(Some("a"), None, None)));
}

#[test]
fn fields_decide() {
    let fields = Some(EventFields {
        medium: Some("m".to_string()),
        reason: None,
        sender: Some("abc".to_string()),
    });
    assert!(fields_match(&fields, &filter(Some("m"), None, Some("ab"))));
    assert!(!fields_match(&fields, &filter(Some("m"), Some("r"), None)));
    assert!(!fields_match(&fields, &filter(None, None, Some("abcd"))));
    assert!(fields_match(&None, &filter(Some("m"), Some("r"), Some("s"))));
}

#[test]
fn asking_for_more_gets_less() {
    let loose = filter(None, None, Some("ab"));
    let strict = filter(Some("podcast"), None, Some("abc"));
    for text in [EVENT, "{}", r#"{"sender":"abx"}"#, r#"{"medium":"podcast","sender":"abcz"}"#] {
        assert!(!matches_filter(text, &strict) || matches_filter(text, &loose));
    }
}

#[test]
fn events_are_forwarded_as_podping() {
    assert_eq!(
        sse_event(Some(EVENT.to_string()), &filter(Some("podcast"), None, None)),
        Some(SseEvent { event: "podping".to_string(), data: EVENT.to_string() })
    );
    assert_eq!(sse_event(Some(EVENT.to_string()), &filter(Some("x"), None, None)), None);
    assert_eq!(sse_event(None, &EventFilter::default()), None);
}

fn inputs() -> HealthInputs {
    HealthInputs {
        now: 1000,
        start_time: 400,
        last_notification_time: 900,
        rebootstrap_timeout: 100,
        notifications_received: 7,
        broadcast_failures: 0,
        archive_messages: Some(3),
    }
}

#[test]
fn health_page() {
    let r = health_handler(inputs());
    assert_eq!(r.status, "OK");
    assert_eq!(r.uptime_seconds, 600);
    assert_eq!(r.notifications_received, 7);
    assert_eq!(r.broadcast_failures, 0);
    assert_eq!(r.seconds_since_last_notification, 100);
    assert_eq!(r.archive_messages, Some(3));
}

#[test]
fn silence_counts_before_failures() {
    let mut i = inputs();
    i.broadcast_failures = 1;
    assert_eq!(health_handler(i).status, "DEGRADED");
    i.last_notification_time = 899;
    assert_eq!(health_handler(i).status, "STALLED");
    i.last_notification_time = 2000;
    i.start_time = 2000;
    let r = health_handler(i);
    assert_eq!((r.seconds_since_last_notification, r.uptime_seconds), (0, 0));
}

#[test]
fn tray_understands_the_health_page() {
    let mut i = inputs();
    assert_eq!(parse_status(&health_handler(i).status), Status::Okay);
    i.broadcast_failures = 2;
    assert_eq!(parse_status(&health_handler(i).status), Status::Degraded);
    i.rebootstrap_timeout = 0;
    assert_eq!(parse_status(&health_handler(i).status), Status::Stalled);
}

#[test]
fn peers_are_listed_once() {
    let mut names = TextMap::new();
    names.insert("n1".to_string(), "One".to_string());
    names.insert("a1".to_string(), "Active".to_string());
    names.insert("n2".to_string(), String::new());
    names.insert("a2".to_string(), String::new());
    let active = vec!["a2".to_string(), "a1".to_string(), "a3".to_string()];
    let r = peers_handler(&active, &names, 4);
    let entry = |id: &str, name: Option<&str>| PeerEntry {
        id: id.to_string(),
        name: name.map(|n| n.to_string()),
    };
    assert_eq!(
        r.peers,
        vec![
            entry("a2", None),
            entry("a1", Some("Active")),
            entry("a3", None),
            entry("n1", Some("One")),
            entry("n2", None),
        ]
    );
    assert_eq!(r.trusted_publishers_count, 4);
}

#[test]
fn node_page() {
    let r = info_handler(
        &"id".to_string(),
        &"key".to_string(),
        &"1.0".to_string(),
        &Some("me".to_string()),
    );
    assert_eq!(
        (r.node_id.as_str(), r.pubkey.as_str(), r.version.as_str(), r.friendly_name.as_deref()),
        ("id", "key", "1.0", Some("me"))
    );
}
