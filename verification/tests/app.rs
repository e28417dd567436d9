use podping_tray::app::{
    dashboard_url_for, format_duration, header, last_label, poll_port, settings_eq, status_badge,
    status_colour, status_name, tooltip_for, DisplaySnap, LocalStats, Moment, Rgb,
};
use podping_tray::config::{Paths, Settings};
use podping_tray::health::Status;

fn at(secs: u64) -> Moment {
    Moment { nanos: secs * 1_000_000_000 }
}

fn snap() -> DisplaySnap {
    DisplaySnap {
        status: Status::Degraded,
        starting: false,
        uptime_seconds: 3700,
        notifications: 12,
        last: Some(9),
    }
}

#[test]
fn durations() {
    for (secs, text) in [
        (0u64, "0s"),
        (59, "59s"),
        (60, "1m00s"),
        (61, "1m01s"),
        (3599, "59m59s"),
        (3600, "1h00m"),
        (3661, "1h01m"),
        (86399, "23h59m"),
        (86400, "1d00h"),
        (90000, "1d01h"),
        (864_000 + 7200, "10d02h"),
        (u64::MAX, "213503982334601d07h"),
    ] {
        assert_eq!(format_duration(secs), text);
    }
}

#[test]
fn elapsed_seconds_are_whole() {
    let t = Moment { nanos: 1_500_000_000 };
    assert_eq!(t.elapsed_secs(Moment { nanos: 2_499_999_999 }), 0);
    assert_eq!(t.elapsed_secs(Moment { nanos: 2_500_000_000 }), 1);
    assert_eq!(t.elapsed_secs(Moment { nanos: 0 }), 0);
}

#[test]
fn stats_follow_the_log() {
    let mut s = LocalStats::new(at(1));
    s.observe("nothing of note", at(2));
    assert_eq!(s, LocalStats::new(at(1)));
    s.observe("INFO Subscribed to gossip topic x", at(3));
    assert!(s.ready);
    assert_eq!(s.notifications, 0);
    s.observe("> PODPING: https://example.com", at(4));
    s.observe("PODPING:", at(5));
    assert_eq!(s.notifications, 2);
    assert_eq!(s.last_notification_at, Some(at(5)));
    assert_eq!(s.started_at, at(1));
    let mut t = LocalStats::new(at(1));
    t.observe("PODPING: x", at(2));
    assert!(t.ready);
}

#[test]
fn tooltips() {
    assert_eq!(
        tooltip_for(&snap()),
        "Podping Gossip Watcher — DEGRADED | Uptime 1h01m | 12 notifs | last 9s ago"
    );
    let mut s = snap();
    s.last = None;
    s.status = Status::Unknown;
    assert_eq!(
        tooltip_for(&s),
        "Podping Gossip Watcher — UNKNOWN | Uptime 1h01m | 12 notifs | last —"
    );
    s.starting = true;
    assert_eq!(tooltip_for(&s), "Podping Gossip Watcher — starting | Uptime 1h01m");
}

#[test]
fn badges_and_colours() {
    let colours = [
        (Status::Okay, "OK", Rgb { r: 63, g: 185, b: 80 }),
        (Status::Degraded, "DEGRADED", Rgb { r: 210, g: 153, b: 34 }),
        (Status::Stalled, "STALLED", Rgb { r: 248, g: 81, b: 73 }),
        (Status::Unknown, "UNKNOWN", Rgb { r: 139, g: 148, b: 158 }),
    ];
    for (status, name, colour) in colours {
        let mut s = snap();
        s.status = status;
        assert_eq!(status_badge(&s), (name, colour));
        assert_eq!(status_name(status), name);
        assert_eq!(status_colour(status), colour);
        s.starting = true;
        assert_eq!(status_badge(&s), ("STARTING", Rgb { r: 139, g: 148, b: 158 }));
    }
}

#[test]
fn header_labels() {
    let h = header(&snap());
    assert_eq!(h.uptime, "Uptime: 1h01m");
    assert_eq!(h.notifications, "Notifications: 12");
    assert_eq!(h.last, "Last: 9s ago");
    assert_eq!(last_label(None), "—");
}

#[test]
fn dashboard_is_where_the_watcher_serves() {
    let mut s = Settings::default();
    s.sse_port = 65535;
    let env = s.to_env(&Paths::resolve('/'));
    let bind = env.get("SSE_BIND_ADDR").map(|a| format!("http://{}/", a));
    assert_eq!(Some(dashboard_url_for(&s)), bind);
    assert_eq!(dashboard_url_for(&s), "http://127.0.0.1:65535/");
    s.sse_enabled = false;
    assert_eq!(dashboard_url_for(&s), "");
    assert_eq!(poll_port(true, 80), Some(80));
    assert_eq!(poll_port(false, 80), None);
}

#[test]
fn settings_differ_by_any_field() {
    let a = Settings::default();
    assert!(settings_eq(&a, &a.clone()));
    let changes: [fn(&mut Settings); 12] = [
        |s| s.node_friendly_name.push('x'),
        |s| s.archive_enabled = true,
        |s| s.catchup_enabled = true,
        |s| s.sse_enabled = false,
        |s| s.sse_port = 1,
        |s| s.watcher_exe.push('x'),
        |s| s.bootstrap_peer_ids.push('x'),
        |s| s.peer_announce_interval = 1,
        |s| s.peer_endorse_interval = 1,
        |s| s.sse_buffer_size = 1,
        |s| s.trace_to_file = true,
        |s| s.start_with_windows = true,
    ];
    for change in changes {
        let mut b = a.clone();
        change(&mut b);
        assert!(!settings_eq(&a, &b));
        assert_ne!(a, b);
    }
}
