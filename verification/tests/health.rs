use podping_tray::health::{
    decode_failure, fetch_health, parse_status, start_of_body, HealthSnapshot, HealthState,
    PollOutcome, Poller, RawHealth, Status,
};

fn up() -> HealthSnapshot {
    HealthSnapshot {
        status: Status::Okay,
        uptime_seconds: 5,
        notifications_received: 2,
        seconds_since_last_notification: 1,
        reachable: true,
    }
}

#[test]
fn statuses_by_name() {
    assert_eq!(parse_status("OK"), Status::Okay);
    assert_eq!(parse_status("DEGRADED"), Status::Degraded);
    assert_eq!(parse_status("STALLED"), Status::Stalled);
    assert_eq!(parse_status(""), Status::Unknown);
    assert_eq!(parse_status("ok"), Status::Unknown);
}

#[test]
fn state_holds_the_latest_snapshot() {
    let mut s = HealthState::default();
    assert_eq!(s.get(), HealthSnapshot::default());
    assert!(!s.get().reachable);
    assert_eq!(s.get().status, Status::Unknown);
    s.set(up());
    assert_eq!(s.get(), up());
}

#[test]
fn decoded_answer_becomes_a_snapshot() {
    let raw = RawHealth {
        status: "DEGRADED".to_string(),
        uptime_seconds: 3,
        notifications_received: 4,
        seconds_since_last_notification: 5,
    };
    assert_eq!(
        fetch_health("{}", Ok(raw)),
        Ok(HealthSnapshot {
            status: Status::Degraded,
            uptime_seconds: 3,
            notifications_received: 4,
            seconds_since_last_notification: 5,
            reachable: true,
        })
    );
}

#[test]
fn undecodable_answer_is_quoted() {
    assert_eq!(
        fetch_health("<a \"b\">\n", Err("expected value".to_string())),
        Err("decode health JSON: expected value (body starts \"<a \\\"b\\\">\\n\")".to_string())
    );
    let long = "é".repeat(100);
    assert_eq!(
        fetch_health(&long, Err("no".to_string())),
        Err(format!("decode health JSON: no (body starts {:?})", "é".repeat(80)))
    );
    assert_eq!(start_of_body(&long), "é".repeat(80));
    assert_eq!(start_of_body("short"), "short");
    assert_eq!(decode_failure("e", "\"b\""), "decode health JSON: e (body starts \"b\")");
}

#[test]
fn third_failure_is_told_once() {
    let mut p = Poller::new();
    let down = || PollOutcome::Down(8089, "refused".to_string());
    assert_eq!(p.observe(down()), (HealthSnapshot::default(), None));
    assert_eq!(p.observe(down()).1, None);
    assert_eq!(
        p.observe(down()).1,
        Some("[TRAY] health poll failed (http://127.0.0.1:8089/api/health): refused".to_string())
    );
    for _ in 0..10 {
        assert_eq!(p.observe(down()).1, None);
    }
    assert_eq!(
        p.observe(PollOutcome::Up(up())),
        (up(), Some("[TRAY] watcher health endpoint is up".to_string()))
    );
    assert_eq!(p.observe(PollOutcome::Up(up())).1, None);
    assert_eq!(p, Poller::new());
}

#[test]
fn switched_off_polls_do_not_count() {
    let mut p = Poller::new();
    let mut told = Vec::new();
    for down in [true, false, true, false, false, true, false, true, true] {
        let outcome = if down {
            PollOutcome::Down(9, "x".to_string())
        } else {
            PollOutcome::Disabled
        };
        told.push(p.observe(outcome).1.is_some());
    }
    assert_eq!(told, vec![false, false, false, false, false, true, false, false, false]);
}

#[test]
fn short_silence_is_not_told() {
    let mut p = Poller::new();
    for _ in 0..5 {
        assert_eq!(p.observe(PollOutcome::Down(1, "x".to_string())).1, None);
        assert_eq!(p.observe(PollOutcome::Down(1, "x".to_string())).1, None);
        assert_eq!(p.observe(PollOutcome::Up(up())).1, None);
    }
}

#[test]
fn switching_off_forgets_nothing() {
    let mut p = Poller::new();
    p.observe(PollOutcome::Down(1, "x".to_string()));
    p.observe(PollOutcome::Down(1, "x".to_string()));
    let before = p;
    assert_eq!(p.observe(PollOutcome::Disabled), (HealthSnapshot::default(), None));
    assert_eq!(p, before);
    assert!(p.observe(PollOutcome::Down(2, "y".to_string())).1.is_some());
}

#[test]
fn failures_are_counted_without_overflow() {
    let mut p = Poller { logged_failure: false, consecutive_failures: u32::MAX };
    assert_eq!(p.observe(PollOutcome::Down(1, "x".to_string())).1, None);
    assert_eq!(p.consecutive_failures, u32::MAX);
}

#[test]
fn log_is_told_in_turns() {
    let mut p = Poller::new();
    let mut told = Vec::new();
    for silent in [1usize, 3, 2, 7, 5] {
        for _ in 0..silent {
            told.extend(p.observe(PollOutcome::Down(1, "x".to_string())).1);
        }
        told.extend(p.observe(PollOutcome::Up(up())).1);
    }
    assert_eq!(told.len(), 6);
    for (i, line) in told.iter().enumerate() {
        assert_eq!(line.contains("failed"), i % 2 == 0, "{}", line);
        assert_eq!(line.contains("is up"), i % 2 == 1, "{}", line);
    }
}
