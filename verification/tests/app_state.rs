use podping_tray::app::{DisplaySnap, LocalStats, Moment};
use podping_tray::app_state::{
    hides_on_close, repaint_after_millis, AppState, SaveStep, Tab, WatcherHint,
};
use podping_tray::config::Settings;
use podping_tray::health::{HealthSnapshot, Status};
use podping_tray::watcher::{ExeChoice, Watcher};

fn at(secs: u64) -> Moment {
    Moment { nanos: secs * 1_000_000_000 }
}

fn state() -> AppState {
    AppState::new(Settings::default(), false, at(0))
}

fn lines(from: usize, to: usize) -> Vec<(String, Moment)> {
    (from..to).map(|i| (format!("line {}", i), at(1))).collect()
}

#[test]
fn start_of_the_application() {
    let mut s = AppState::new(Settings::default(), true, at(5));
    assert_eq!(s.tab, Tab::Log);
    assert!(s.auto_scroll);
    assert!(s.log_lines.is_empty() && s.validation_errors.is_empty());
    assert_eq!(s.save_status, None);
    assert_eq!(s.local_stats, LocalStats::new(at(5)));
    assert!(!s.is_dirty());
    assert!(s.take_minimize_request());
    assert!(!s.take_minimize_request());
}

#[test]
fn last_log_lines_are_kept() {
    let mut s = state();
    s.drain_logs(lines(0, 4999));
    assert_eq!(s.log_lines.len(), 4999);
    s.drain_logs(lines(4999, 5000));
    assert_eq!(s.log_lines.len(), 5000);
    assert_eq!(s.log_lines[0], "line 0");
    s.drain_logs(lines(5000, 5003));
    assert_eq!(s.log_lines.len(), 5000);
    assert_eq!(s.log_lines[0], "line 3");
    assert_eq!(s.log_lines[4999], "line 5002");
    assert_eq!(s.log_caption(), "(5000 lines)");
    let mut t = state();
    t.drain_logs(lines(0, 5003));
    assert_eq!(s.log_lines, t.log_lines);
    s.clear_log();
    assert_eq!(s.log_caption(), "(0 lines)");
}

#[test]
fn drained_lines_are_counted() {
    let mut s = state();
    s.drain_logs(vec![
        ("starting".to_string(), at(1)),
        ("PODPING: a".to_string(), at(2)),
        ("PODPING: b".to_string(), at(3)),
    ]);
    assert!(s.local_stats.ready);
    assert_eq!(s.local_stats.notifications, 2);
    assert_eq!(s.local_stats.last_notification_at, Some(at(3)));
}

#[test]
fn health_page_is_shown_where_it_is_reached() {
    let s = state();
    let mut http = HealthSnapshot {
        status: Status::Degraded,
        uptime_seconds: 10,
        notifications_received: 3,
        seconds_since_last_notification: 4,
        reachable: true,
    };
    assert_eq!(
        s.display_snap(&http, at(9)),
        DisplaySnap {
            status: Status::Degraded,
            starting: false,
            uptime_seconds: 10,
            notifications: 3,
            last: Some(4),
        }
    );
    http.notifications_received = 0;
    assert_eq!(s.display_snap(&http, at(9)).last, None);
}

#[test]
fn local_stats_are_shown_where_it_is_not() {
    let mut s = state();
    let http = HealthSnapshot::default();
    assert_eq!(
        s.display_snap(&http, at(7)),
        DisplaySnap {
            status: Status::Unknown,
            starting: true,
            uptime_seconds: 7,
            notifications: 0,
            last: None,
        }
    );
    s.drain_logs(vec![("Subscribed to gossip topic".to_string(), at(8))]);
    assert_eq!(s.display_snap(&http, at(9000)).status, Status::Okay);
    s.drain_logs(vec![("PODPING: x".to_string(), at(10))]);
    let snap = s.display_snap(&http, at(190));
    assert_eq!((snap.status, snap.last, snap.notifications), (Status::Okay, Some(180), 1));
    assert_eq!(s.display_snap(&http, at(191)).status, Status::Stalled);
}

#[test]
fn icon_is_drawn_on_change() {
    let mut s = state();
    let mut snap = s.display_snap(&HealthSnapshot::default(), at(0));
    let first = s.sync_tray(&snap);
    assert_eq!(first.icon, Some(Status::Unknown));
    assert_eq!(first.tooltip, "Podping Gossip Watcher — starting | Uptime 0s");
    assert_eq!(s.sync_tray(&snap).icon, None);
    snap.status = Status::Stalled;
    assert_eq!(s.sync_tray(&snap).icon, None);
    snap.starting = false;
    assert_eq!(s.sync_tray(&snap).icon, Some(Status::Stalled));
    assert_eq!(s.last_tray_status, Some(Status::Stalled));
}

#[test]
fn saving_with_success() {
    let mut s = state();
    s.settings_draft.sse_port = 9000;
    s.settings_draft.start_with_windows = true;
    assert!(s.is_dirty());
    assert_eq!(s.save_and_restart(false), SaveStep::ResolveExe);
    assert_eq!(s.save_step(SaveStep::ResolveExe, Ok(()), at(1)), SaveStep::WriteSettings);
    assert_eq!(s.save_step(SaveStep::WriteSettings, Ok(()), at(1)), SaveStep::ApplyStartup(true));
    assert!(s.is_dirty());
    assert_eq!(s.save_step(SaveStep::ApplyStartup(true), Ok(()), at(1)), SaveStep::AdoptSettings);
    assert!(!s.is_dirty());
    let p = s.published();
    assert_eq!((p.sse_port, p.sse_enabled), (9000, true));
    assert_eq!(p.dashboard_url, "http://127.0.0.1:9000/");
    assert_eq!(
        s.save_step(SaveStep::AdoptSettings, Err("ignored".to_string()), at(2)),
        SaveStep::StartWatcher
    );
    assert_eq!(s.local_stats, LocalStats::new(at(2)));
    assert_eq!(
        s.save_step(SaveStep::StartWatcher, Err("no exe".to_string()), at(2)),
        SaveStep::Done
    );
    assert_eq!(s.save_status, Some("Saved. Watcher restarted.".to_string()));
    assert_eq!(
        s.log_lines,
        vec![
            "[TRAY] Restarting watcher...".to_string(),
            "[TRAY] restart failed: no exe".to_string()
        ]
    );
}

#[test]
fn failed_saving_keeps_what_was_saved() {
    let failures = [
        (SaveStep::ResolveExe, "Cannot save: why"),
        (SaveStep::WriteSettings, "Save failed: why"),
        (
            SaveStep::ApplyStartup(false),
            "Saved settings, but startup registration failed: why",
        ),
    ];
    for (step, status) in failures {
        let mut s = state();
        s.settings_draft.sse_port = 9000;
        assert_eq!(s.save_and_restart(false), SaveStep::ResolveExe);
        assert_eq!(s.save_step(step, Err("why".to_string()), at(1)), SaveStep::Done);
        assert_eq!(s.save_status, Some(status.to_string()));
        assert_eq!(s.settings_saved, Settings::default());
        assert!(s.log_lines.is_empty());
        assert_eq!(s.save_step(SaveStep::Done, Ok(()), at(1)), SaveStep::Done);
    }
}

#[test]
fn only_a_missing_executable_blocks() {
    let mut s = state();
    s.settings_draft.sse_port = 0;
    s.settings_draft.node_friendly_name = "not found ".repeat(10);
    assert_eq!(s.save_and_restart(false), SaveStep::ResolveExe);
    assert_eq!(s.validation_errors.len(), 2);
    s.settings_draft.watcher_exe = "gone.exe".to_string();
    assert_eq!(s.save_and_restart(true), SaveStep::ResolveExe);
    assert_eq!(s.save_and_restart(false), SaveStep::Done);
    assert_eq!(s.save_status, Some("Fix validation errors before saving.".to_string()));
    assert_eq!(s.validation_errors.len(), 3);
}

#[test]
fn reverting_throws_the_draft_away() {
    let mut s = state();
    s.settings_draft.watcher_exe = "gone.exe".to_string();
    s.save_and_restart(false);
    s.revert();
    assert!(!s.is_dirty());
    assert!(s.validation_errors.is_empty());
    assert_eq!(s.save_status, None);
    assert_eq!(s.settings_draft, Settings::default());
}

#[test]
fn hints_below_the_executable() {
    let mut s = state();
    assert_eq!(s.watcher_hint(false), WatcherHint::Default);
    s.settings_draft.watcher_exe = " \t".to_string();
    assert_eq!(s.watcher_hint(false), WatcherHint::Default);
    s.settings_draft.watcher_exe = "a".to_string();
    assert_eq!(s.watcher_hint(false), WatcherHint::Missing);
    assert_eq!(s.watcher_hint(true), WatcherHint::Nothing);
}

#[test]
fn dashboard_is_opened_while_there_is_one() {
    let mut s = state();
    assert_eq!(s.open_dashboard(), Some("http://127.0.0.1:8089/".to_string()));
    s.settings_draft.sse_enabled = false;
    assert!(s.open_dashboard().is_some());
    s.settings_saved.sse_enabled = false;
    assert_eq!(s.open_dashboard(), None);
    assert_eq!(s.published().dashboard_url, "");
}

#[test]
fn restarting_from_the_tray() {
    let mut s = state();
    s.drain_logs(vec![("PODPING: x".to_string(), at(1))]);
    s.restart_watcher(at(4));
    s.watcher_restarted(Ok(()));
    assert_eq!(s.local_stats, LocalStats::new(at(4)));
    assert_eq!(s.log_lines.last(), Some(&"[TRAY] Restarting watcher...".to_string()));
    s.watcher_restarted(Err("denied".to_string()));
    assert_eq!(s.log_lines.last(), Some(&"[TRAY] restart failed: denied".to_string()));
    s.log("[TRAY] failed to init: x".to_string());
    assert_eq!(s.log_lines.len(), 4);
}

#[test]
fn closing_and_repainting() {
    assert!(hides_on_close(false, true, true));
    assert!(!hides_on_close(true, true, true));
    assert!(!hides_on_close(false, false, true));
    assert!(!hides_on_close(false, true, false));
    assert_eq!(repaint_after_millis(true), 2000);
    assert_eq!(repaint_after_millis(false), 500);
}

#[test]
fn check_and_choice_agree() {
    for custom in ["", "  ", "w.exe", " w.exe "] {
        for is_file in [false, true] {
            let mut s = state();
            s.settings_draft.watcher_exe = custom.to_string();
            let refused = matches!(
                Watcher::<String, u32>::resolve_exe(custom, is_file),
                ExeChoice::Refused(_)
            );
            assert_eq!(s.save_and_restart(is_file) == SaveStep::Done, refused);
        }
    }
}
