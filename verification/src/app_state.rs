//! What the tray application remembers: its log, the settings in the form and the saved ones, and
//! how far the saving of settings has come.

use vstd::prelude::*;
use vstd::string::*;

use crate::app::{
    dashboard_url, dashboard_url_for, fresh_stats, icon_status, is_notification, is_subscription,
    law_uptime_counts_from_the_start, settings_eq, shown, stats_after, tooltip, tooltip_for, DisplaySnap, LocalStats, Moment, MAX_LOG_LINES,
};
use crate::config::{complaints, watcher_missing, Settings, SettingsView};
use crate::health::{HealthSnapshot, Status};
use crate::number::{decimal, decimal_text};
use crate::startup::{
    all_made, key_behind, law_last_change_decides, run_name, RunKey, StartupCall,
};
use crate::text::{contains, found_at, maybe_text, occurs_in, texts, trim, trimmed};
use crate::watcher::chosen_exe;

verus! {

/// The pages of the window.
#[derive(Debug, Clone, Copy, PartialEq, Eq, Structural)]
pub enum Tab {
    Log,
    Settings,
}

/// What the application remembers.
pub struct AppState {
    pub settings_draft: Settings,
    pub settings_saved: Settings,
    pub log_lines: Vec<String>,
    pub tab: Tab,
    pub auto_scroll: bool,
    pub validation_errors: Vec<String>,
    pub save_status: Option<String>,
    pub minimize_pending: bool,
    pub last_tray_status: Option<Status>,
    pub local_stats: LocalStats,
}

/// [`AppState`], as sequences.
#[verifier::ext_equal]
pub struct AppView {
    pub settings_draft: SettingsView,
    pub settings_saved: SettingsView,
    pub log_lines: Seq<Seq<char>>,
    pub tab: Tab,
    pub auto_scroll: bool,
    pub validation_errors: Seq<Seq<char>>,
    pub save_status: Option<Seq<char>>,
    pub minimize_pending: bool,
    pub last_tray_status: Option<Status>,
    pub local_stats: LocalStats,
}

impl View for AppState {
    type V = AppView;

    open spec fn view(&self) -> AppView {
        AppView {
            settings_draft: self.settings_draft@,
            settings_saved: self.settings_saved@,
            log_lines: texts(self.log_lines@),
            tab: self.tab,
            auto_scroll: self.auto_scroll,
            validation_errors: texts(self.validation_errors@),
            save_status: maybe_text(self.save_status),
            minimize_pending: self.minimize_pending,
            last_tray_status: self.last_tray_status,
            local_stats: self.local_stats,
        }
    }
}

/// Log lines as they were received, each with the moment at which it was.
pub open spec fn received_lines(lines: Seq<(String, Moment)>) -> Seq<(Seq<char>, Moment)> {
    lines.map_values(|l: (String, Moment)| (l.0@, l.1))
}

/// The texts of received lines.
pub open spec fn line_texts(lines: Seq<(Seq<char>, Moment)>) -> Seq<Seq<char>> {
    lines.map_values(|l: (Seq<char>, Moment)| l.0)
}

/// The stats behind all of `lines`.
pub open spec fn stats_behind(s: LocalStats, lines: Seq<(Seq<char>, Moment)>) -> LocalStats
    decreases lines.len(),
{
    if lines.len() == 0 {
        s
    } else {
        stats_after(stats_behind(s, lines.drop_last()), lines.last().0, lines.last().1)
    }
}

/// How many of `lines` report a notification.
pub open spec fn notification_count(lines: Seq<(Seq<char>, Moment)>) -> nat
    decreases lines.len(),
{
    if lines.len() == 0 {
        0
    } else {
        notification_count(lines.drop_last()) + if is_notification(lines.last().0) {
            1nat
        } else {
            0nat
        }
    }
}

proof fn lemma_fewer_before(lines: Seq<(Seq<char>, Moment)>, k: int)
    requires
        0 <= k <= lines.len(),
    ensures
        notification_count(lines.take(k)) <= notification_count(lines),
    decreases lines.len(),
{
    if k == lines.len() {
        assert(lines.take(k) == lines);
    } else {
        assert(lines.drop_last().take(k) == lines.take(k));
        lemma_fewer_before(lines.drop_last(), k);
    }
}

/// The last lines, as many as are kept.
pub open spec fn kept_lines(lines: Seq<Seq<char>>) -> Seq<Seq<char>> {
    if lines.len() > 5000 {
        lines.skip(lines.len() - 5000)
    } else {
        lines
    }
}

/// What the tray icon is to show.
#[derive(Debug, PartialEq, Eq)]
pub struct TrayUpdate {
    /// The status to draw the icon for, where it has changed.
    pub icon: Option<Status>,
    pub tooltip: String,
}

/// What the settings say to the parts of the application that run beside its window.
#[derive(Debug, PartialEq, Eq)]
pub struct Published {
    pub sse_port: u16,
    pub sse_enabled: bool,
    pub dashboard_url: String,
}

/// What stands below the field for the watcher's executable.
#[derive(Debug, Clone, Copy, PartialEq, Eq, Structural)]
pub enum WatcherHint {
    /// The field is empty, so the executable beside the tray application is used.
    Default,
    /// The field names no file.
    Missing,
    Nothing,
}

/// What is to be done next while settings are saved.
#[derive(Debug, Clone, Copy, PartialEq, Eq, Structural)]
pub enum SaveStep {
    /// Resolve the executable that the draft names.
    ResolveExe,
    /// Write the draft to the settings file.
    WriteSettings,
    /// Register the application for sign-in, or remove it.
    ApplyStartup(bool),
    /// Use the executable that the saved settings name, where it resolves, and publish the saved
    /// settings.
    AdoptSettings,
    /// Start the watcher with the saved settings.
    StartWatcher,
    /// Nothing.
    Done,
}

/// A complaint that keeps the settings from being saved is among `errors`.
pub open spec fn blocks_saving(errors: Seq<Seq<char>>) -> bool {
    exists|i: int| 0 <= i < errors.len() && occurs_in("not found"@, #[trigger] errors[i])
}

/// `s` with this status below the settings form.
pub open spec fn with_status(s: AppView, status: Seq<char>) -> AppView {
    AppView { save_status: Some(status), ..s }
}

/// `s` as the watcher is about to be started again.
pub open spec fn restarting(s: AppView, now: Moment) -> AppView {
    AppView {
        local_stats: fresh_stats(now),
        log_lines: s.log_lines.push("[TRAY] Restarting watcher..."@),
        ..s
    }
}

/// `s` behind the attempt to start the watcher.
pub open spec fn restarted(s: AppView, outcome: Result<(), Seq<char>>) -> AppView {
    match outcome {
        Ok(_) => s,
        Err(e) => AppView { log_lines: s.log_lines.push("[TRAY] restart failed: "@ + e), ..s },
    }
}

/// `s` with the draft thrown away for the saved settings.
pub open spec fn reverted(s: AppView) -> AppView {
    AppView {
        settings_draft: s.settings_saved,
        validation_errors: Seq::empty(),
        save_status: None,
        ..s
    }
}

/// The status that the icon is to be drawn for, where it is another than the last.
pub open spec fn icon_to_draw(s: AppView, snap: DisplaySnap) -> Option<Status> {
    if s.last_tray_status == Some(icon_status(snap)) {
        None
    } else {
        Some(icon_status(snap))
    }
}

/// `s` once the icon shows `snap`.
pub open spec fn tray_synced(s: AppView, snap: DisplaySnap) -> AppView {
    AppView { last_tray_status: Some(icon_status(snap)), ..s }
}

/// The start of saving: the draft is checked, and a missing executable ends it.
pub open spec fn save_started(s: AppView, watcher_is_file: bool) -> (AppView, SaveStep) {
    let checked = AppView {
        validation_errors: complaints(s.settings_draft, watcher_is_file),
        ..s
    };
    if blocks_saving(checked.validation_errors) {
        (with_status(checked, "Fix validation errors before saving."@), SaveStep::Done)
    } else {
        (checked, SaveStep::ResolveExe)
    }
}

/// What `outcome` of `step` leads to.
pub open spec fn save_next(
    s: AppView,
    step: SaveStep,
    outcome: Result<(), Seq<char>>,
    now: Moment,
) -> (AppView, SaveStep) {
    match step {
        SaveStep::ResolveExe => match outcome {
            Ok(_) => (s, SaveStep::WriteSettings),
            Err(e) => (with_status(s, "Cannot save: "@ + e), SaveStep::Done),
        },
        SaveStep::WriteSettings => match outcome {
            Ok(_) => (s, SaveStep::ApplyStartup(s.settings_draft.start_with_windows)),
            Err(e) => (with_status(s, "Save failed: "@ + e), SaveStep::Done),
        },
        SaveStep::ApplyStartup(_) => match outcome {
            Ok(_) => (
                AppView { settings_saved: s.settings_draft, ..s },
                SaveStep::AdoptSettings,
            ),
            Err(e) => (
                with_status(s, "Saved settings, but startup registration failed: "@ + e),
                SaveStep::Done,
            ),
        },
        SaveStep::AdoptSettings => (restarting(s, now), SaveStep::StartWatcher),
        SaveStep::StartWatcher => (
            with_status(restarted(s, outcome), "Saved. Watcher restarted."@),
            SaveStep::Done,
        ),
        SaveStep::Done => (s, SaveStep::Done),
    }
}

/// What came of a step, as sequences.
pub open spec fn step_result(outcome: Result<(), String>) -> Result<(), Seq<char>> {
    match outcome {
        Ok(_) => Ok(()),
        Err(e) => Err(e@),
    }
}

/// Tells whether a complaint that keeps the settings from being saved is among `errors`.
fn any_blocks(errors: &Vec<String>) -> (r: bool)
    ensures
        r == blocks_saving(texts(errors@)),
{
    let mut i: usize = 0;
    while i < errors.len()
        invariant
            i <= errors@.len(),
            forall|j: int| 0 <= j < i ==> !occurs_in("not found"@, #[trigger] texts(errors@)[j]),
        decreases errors@.len() - i,
    {
        if contains(errors[i].as_str(), "not found") {
            assert(occurs_in("not found"@, texts(errors@)[i as int]));
            return true;
        }
        i = i + 1;
    }
    false
}

impl AppState {
    /// The state at the start of the application.
    pub fn new(settings: Settings, start_minimized: bool, now: Moment) -> (r: Self)
        ensures
            r@ == (AppView {
                settings_draft: settings@,
                settings_saved: settings@,
                log_lines: Seq::empty(),
                tab: Tab::Log,
                auto_scroll: true,
                validation_errors: Seq::empty(),
                save_status: None,
                minimize_pending: start_minimized,
                last_tray_status: None,
                local_stats: fresh_stats(now),
            }),
    {
        AppState {
            settings_draft: settings.clone(),
            settings_saved: settings,
            log_lines: Vec::new(),
            tab: Tab::Log,
            auto_scroll: true,
            validation_errors: Vec::new(),
            save_status: None,
            minimize_pending: start_minimized,
            last_tray_status: None,
            local_stats: LocalStats::new(now),
        }
    }

    /// Appends a line to the log.
    pub fn log(&mut self, line: String)
        ensures
            final(self)@ == (AppView { log_lines: old(self)@.log_lines.push(line@), ..old(self)@ }),
    {
        self.log_lines.push(line);
        assert(self@.log_lines == old(self)@.log_lines.push(line@));
    }

    /// Takes in the log lines that have come, and lets the oldest go where there are too many.
    pub fn drain_logs(&mut self, lines: Vec<(String, Moment)>)
        requires
            old(self).local_stats.notifications + notification_count(received_lines(lines@))
                <= u64::MAX,
        ensures
            final(self)@ == (AppView {
                local_stats: stats_behind(old(self)@.local_stats, received_lines(lines@)),
                log_lines: kept_lines(
                    old(self)@.log_lines + line_texts(received_lines(lines@)),
                ),
                ..old(self)@
            }),
            final(self)@.log_lines.is_suffix_of(
                old(self)@.log_lines + lines@.map_values(|l: (String, Moment)| l.0@),
            ),
            old(self)@.log_lines.len() + lines@.len() <= 5000 ==> final(self)@.log_lines.len()
                == old(self)@.log_lines.len() + lines@.len(),
            old(self)@.log_lines.len() + lines@.len() > 5000 ==> final(self)@.log_lines.len()
                == 5000,
    {
        let ghost came = received_lines(lines@);
        assert(line_texts(came) == lines@.map_values(|l: (String, Moment)| l.0@));
        let ghost before = self@;
        let mut i: usize = 0;
        assert(came.take(0) == Seq::<(Seq<char>, Moment)>::empty());
        assert(before.log_lines + line_texts(came.take(0)) == before.log_lines);
        while i < lines.len()
            invariant
                i <= lines@.len(),
                came == received_lines(lines@),
                before.local_stats.notifications + notification_count(came) <= u64::MAX,
                self.local_stats.notifications == before.local_stats.notifications
                    + notification_count(came.take(i as int)),
                self@ == (AppView {
                    local_stats: stats_behind(before.local_stats, came.take(i as int)),
                    log_lines: before.log_lines + line_texts(came.take(i as int)),
                    ..before
                }),
            decreases lines@.len() - i,
        {
            let ghost upto = came.take(i + 1);
            assert(upto.drop_last() == came.take(i as int));
            assert(upto.last() == (lines@[i as int].0@, lines@[i as int].1));
            assert(line_texts(upto) == line_texts(upto.drop_last()).push(upto.last().0));
            proof {
                lemma_fewer_before(came, i + 1);
            }
            self.local_stats.observe(lines[i].0.as_str(), lines[i].1);
            self.log(lines[i].0.clone());
            assert(self@.log_lines == before.log_lines + line_texts(upto));
            i = i + 1;
        }
        assert(came.take(i as int) == came);
        if self.log_lines.len() > MAX_LOG_LINES {
            let drop: usize = self.log_lines.len() - MAX_LOG_LINES;
            let ghost all = self.log_lines@;
            self.log_lines = self.log_lines.split_off(drop);
            assert(texts(self.log_lines@) == texts(all).skip(drop as int));
        }
    }

    /// What is shown of the watcher, where `http` is the latest snapshot of its health page.
    pub fn display_snap(&self, http: &HealthSnapshot, now: Moment) -> (r: DisplaySnap)
        ensures
            r == shown(self.local_stats, *http, now),
            http.reachable ==> r.status == http.status && r.uptime_seconds == http.uptime_seconds
                && r.notifications == http.notifications_received,
            !http.reachable ==> r.notifications == self.local_stats.notifications,
            !http.reachable && now.nanos >= self.local_stats.started_at.nanos ==> r.uptime_seconds
                * 1_000_000_000 <= now.nanos - self.local_stats.started_at.nanos < (
            r.uptime_seconds + 1) * 1_000_000_000,
    {
        if http.reachable {
            return DisplaySnap {
                status: http.status,
                starting: false,
                uptime_seconds: http.uptime_seconds,
                notifications: http.notifications_received,
                last: if http.notifications_received > 0 {
                    Some(http.seconds_since_last_notification)
                } else {
                    None
                },
            };
        }
        let last: Option<u64> = match self.local_stats.last_notification_at {
            Some(t) => Some(t.elapsed_secs(now)),
            None => None,
        };
        let stalled: bool = match last {
            Some(secs) => secs > crate::app::STALL_SECS,
            None => false,
        };
        let starting: bool = !self.local_stats.ready;
        let status = if starting {
            Status::Unknown
        } else if stalled {
            Status::Stalled
        } else {
            Status::Okay
        };
        DisplaySnap {
            status,
            starting,
            uptime_seconds: self.local_stats.started_at.elapsed_secs(now),
            notifications: self.local_stats.notifications,
            last,
        }
    }

    /// What the tray icon is to show for `snap`. The icon is drawn anew only where its status has
    /// changed since the last time.
    pub fn sync_tray(&mut self, snap: &DisplaySnap) -> (r: TrayUpdate)
        ensures
            r.icon == icon_to_draw(old(self)@, *snap),
            r.tooltip@ == tooltip(*snap),
            final(self)@ == tray_synced(old(self)@, *snap),
    {
        let status = if snap.starting {
            Status::Unknown
        } else {
            snap.status
        };
        let unchanged: bool = match self.last_tray_status {
            Some(last) => last == status,
            None => false,
        };
        let icon = if unchanged {
            None
        } else {
            Some(status)
        };
        self.last_tray_status = Some(status);
        TrayUpdate { icon, tooltip: tooltip_for(snap) }
    }

    /// Tells whether the window is to be hidden before it is first seen. It is so once.
    pub fn take_minimize_request(&mut self) -> (r: bool)
        ensures
            r == old(self).minimize_pending,
            final(self)@ == (AppView { minimize_pending: false, ..old(self)@ }),
    {
        let pending: bool = self.minimize_pending;
        self.minimize_pending = false;
        pending
    }

    /// The dashboard's address, while there is a dashboard.
    pub fn open_dashboard(&self) -> (r: Option<String>)
        ensures
            r is Some <==> self@.settings_saved.sse_enabled,
            r is Some <==> self.settings_saved.sse_enabled,
            r is Some ==> r->0@ == "http://127.0.0.1:"@ + decimal(
                self.settings_saved.sse_port as nat,
            ) + "/"@,
            r is Some ==> r->0@ == dashboard_url(self@.settings_saved),
    {
        if !self.settings_saved.sse_enabled {
            return None;
        }
        Some(dashboard_url_for(&self.settings_saved))
    }

    /// What the saved settings say to the parts of the application that run beside its window.
    pub fn published(&self) -> (r: Published)
        ensures
            r.sse_port == self.settings_saved.sse_port,
            r.sse_enabled == self.settings_saved.sse_enabled,
            r.dashboard_url@.len() > 0 <==> self.settings_saved.sse_enabled,
            r.sse_port == self@.settings_saved.sse_port,
            r.sse_enabled == self@.settings_saved.sse_enabled,
            r.dashboard_url@ == dashboard_url(self@.settings_saved),
    {
        proof {
            reveal_strlit("/");
        }
        Published {
            sse_port: self.settings_saved.sse_port,
            sse_enabled: self.settings_saved.sse_enabled,
            dashboard_url: dashboard_url_for(&self.settings_saved),
        }
    }

    /// Notes that the watcher is about to be started again.
    pub fn restart_watcher(&mut self, now: Moment)
        ensures
            final(self)@ == restarting(old(self)@, now),
    {
        self.local_stats = LocalStats::new(now);
        self.log("[TRAY] Restarting watcher...".to_owned());
    }

    /// Notes what came of starting the watcher again.
    pub fn watcher_restarted(&mut self, outcome: Result<(), String>)
        ensures
            final(self)@ == restarted(old(self)@, step_result(outcome)),
    {
        match outcome {
            Ok(_) => {},
            Err(e) => {
                self.log("[TRAY] restart failed: ".to_owned().concat(e.as_str()));
            },
        }
    }

    /// Starts saving the draft: it is checked, and a missing executable ends the saving.
    pub fn save_and_restart(&mut self, watcher_is_file: bool) -> (r: SaveStep)
        ensures
            (final(self)@, r) == save_started(old(self)@, watcher_is_file),
            r == SaveStep::Done <==> trimmed(old(self).settings_draft.watcher_exe@).len() > 0
                && !watcher_is_file,
            r != SaveStep::Done ==> r == SaveStep::ResolveExe,
    {
        proof {
            law_only_a_missing_executable_blocks(self@.settings_draft, watcher_is_file);
        }
        self.validation_errors = self.settings_draft.validate(watcher_is_file);
        if any_blocks(&self.validation_errors) {
            self.save_status = Some("Fix validation errors before saving.".to_owned());
            return SaveStep::Done;
        }
        SaveStep::ResolveExe
    }

    /// Takes in what came of `step`, and says what is to be done next.
    pub fn save_step(&mut self, step: SaveStep, outcome: Result<(), String>, now: Moment) -> (r:
        SaveStep)
        ensures
            (final(self)@, r) == save_next(old(self)@, step, step_result(outcome), now),
            r matches SaveStep::ApplyStartup(enabled) ==> enabled
                == old(self).settings_draft.start_with_windows,
            r is WriteSettings <==> step is ResolveExe && outcome is Ok,
            r is ApplyStartup <==> step is WriteSettings && outcome is Ok,
            r is AdoptSettings <==> step is ApplyStartup && outcome is Ok,
            r is StartWatcher <==> step is AdoptSettings,
            !(r is ResolveExe),
            final(self)@.settings_draft == old(self)@.settings_draft,
            r is AdoptSettings ==> final(self)@.settings_saved == old(self)@.settings_draft,
            !(r is AdoptSettings) ==> final(self)@.settings_saved == old(self)@.settings_saved,
    {
        match step {
            SaveStep::ResolveExe => match outcome {
                Ok(_) => SaveStep::WriteSettings,
                Err(e) => {
                    self.save_status = Some("Cannot save: ".to_owned().concat(e.as_str()));
                    SaveStep::Done
                },
            },
            SaveStep::WriteSettings => match outcome {
                Ok(_) => SaveStep::ApplyStartup(self.settings_draft.start_with_windows),
                Err(e) => {
                    self.save_status = Some("Save failed: ".to_owned().concat(e.as_str()));
                    SaveStep::Done
                },
            },
            SaveStep::ApplyStartup(_) => match outcome {
                Ok(_) => {
                    self.settings_saved = self.settings_draft.clone();
                    SaveStep::AdoptSettings
                },
                Err(e) => {
                    self.save_status = Some(
                        "Saved settings, but startup registration failed: ".to_owned().concat(
                            e.as_str(),
                        ),
                    );
                    SaveStep::Done
                },
            },
            SaveStep::AdoptSettings => {
                self.restart_watcher(now);
                SaveStep::StartWatcher
            },
            SaveStep::StartWatcher => {
                self.watcher_restarted(outcome);
                self.save_status = Some("Saved. Watcher restarted.".to_owned());
                SaveStep::Done
            },
            SaveStep::Done => SaveStep::Done,
        }
    }

    /// Throws the draft away for the saved settings.
    pub fn revert(&mut self)
        ensures
            final(self)@ == reverted(old(self)@),
    {
        self.settings_draft = self.settings_saved.clone();
        self.validation_errors.clear();
        self.save_status = None;
        assert(self@.validation_errors == Seq::<Seq<char>>::empty());
    }

    /// Tells whether the draft differs from the saved settings.
    pub fn is_dirty(&self) -> (r: bool)
        ensures
            r == (self@.settings_draft != self@.settings_saved),
            r == (self.settings_draft@ != self.settings_saved@),
    {
        !settings_eq(&self.settings_draft, &self.settings_saved)
    }

    /// What stands below the field for the watcher's executable, where `is_file` says whether the
    /// path in it is that of a file.
    pub fn watcher_hint(&self, is_file: bool) -> (r: WatcherHint)
        ensures
            r == (if trimmed(self@.settings_draft.watcher_exe).len() == 0 {
                WatcherHint::Default
            } else if !is_file {
                WatcherHint::Missing
            } else {
                WatcherHint::Nothing
            }),
    {
        if trim(self.settings_draft.watcher_exe.as_str()).as_str().is_empty() {
            WatcherHint::Default
        } else if !is_file {
            WatcherHint::Missing
        } else {
            WatcherHint::Nothing
        }
    }

    /// Empties the log.
    pub fn clear_log(&mut self)
        ensures
            final(self)@ == (AppView { log_lines: Seq::empty(), ..old(self)@ }),
    {
        self.log_lines.clear();
        assert(self@.log_lines == Seq::<Seq<char>>::empty());
    }

    /// How many lines the log has, in words.
    pub fn log_caption(&self) -> (r: String)
        ensures
            r@ == "("@ + decimal(self@.log_lines.len()) + " lines)"@,
    {
        "(".to_owned().concat(decimal_text(self.log_lines.len() as u64).as_str()).concat(" lines)")
    }
}

/// Tells whether closing the window only hides it: not while the application is leaving, and not
/// without a tray icon to bring it back.
pub fn hides_on_close(exiting: bool, has_tray: bool, close_requested: bool) -> (r: bool)
    ensures
        r == (!exiting && has_tray && close_requested),
{
    !exiting && has_tray && close_requested
}

/// The milliseconds until the window is painted again: longer while nobody sees it.
pub fn repaint_after_millis(hidden: bool) -> (r: u64)
    ensures
        r == (if hidden {
            2000u64
        } else {
            500u64
        }),
{
    if hidden {
        2000
    } else {
        500
    }
}

/// No more log lines are kept than the limit, and those are the last; and taking lines in piece by
/// piece keeps the same lines as taking them in at once.
pub proof fn law_last_lines_are_kept(before: Seq<Seq<char>>, lines: Seq<Seq<char>>)
    ensures
        kept_lines(lines).len() <= 5000,
        kept_lines(lines).is_suffix_of(lines),
        lines.len() <= 5000 ==> kept_lines(lines) == lines,
        lines.len() > 5000 ==> kept_lines(lines).len() == 5000,
        kept_lines(kept_lines(before) + lines) == kept_lines(before + lines),
{
    assert(kept_lines(kept_lines(before) + lines) == kept_lines(before + lines));
}

/// The stats count what the log reports: behind `lines` there are as many more notifications as
/// lines that report one, and the watcher is ready once a line says that it has joined or reports a
/// notification.
pub proof fn law_stats_count_notifications(start: Moment, lines: Seq<(Seq<char>, Moment)>)
    requires
        notification_count(lines) <= u64::MAX,
    ensures
        stats_behind(fresh_stats(start), lines).notifications == notification_count(lines),
        lines.len() > 0 && occurs_in("PODPING:"@, lines.last().0) ==> stats_behind(
            fresh_stats(start),
            lines,
        ).last_notification_at == Some(lines.last().1) && notification_count(lines)
            == notification_count(lines.drop_last()) + 1,
        lines.len() > 0 && !occurs_in("PODPING:"@, lines.last().0) ==> stats_behind(
            fresh_stats(start),
            lines,
        ).last_notification_at == stats_behind(
            fresh_stats(start),
            lines.drop_last(),
        ).last_notification_at && notification_count(lines) == notification_count(
            lines.drop_last(),
        ),
        stats_behind(fresh_stats(start), lines).started_at == start,
        stats_behind(fresh_stats(start), lines).last_notification_at is Some <==> notification_count(
            lines,
        ) > 0,
        stats_behind(fresh_stats(start), lines).ready <==> exists|i: int|
            0 <= i < lines.len() && (is_subscription((#[trigger] lines[i]).0) || is_notification(
                lines[i].0,
            )),
    decreases lines.len(),
{
    if lines.len() > 0 {
        let front = lines.drop_last();
        lemma_fewer_before(lines, lines.len() - 1);
        assert(lines.take(lines.len() - 1) == front);
        law_stats_count_notifications(start, front);
        let s = stats_behind(fresh_stats(start), lines);
        if exists|i: int|
            0 <= i < front.len() && (is_subscription((#[trigger] front[i]).0) || is_notification(
                front[i].0,
            )) {
            let i = choose|i: int|
                0 <= i < front.len() && (is_subscription((#[trigger] front[i]).0)
                    || is_notification(front[i].0));
            assert(lines[i] == front[i]);
        }
        if exists|i: int|
            0 <= i < lines.len() && (is_subscription((#[trigger] lines[i]).0) || is_notification(
                lines[i].0,
            )) {
            let i = choose|i: int|
                0 <= i < lines.len() && (is_subscription((#[trigger] lines[i]).0)
                    || is_notification(lines[i].0));
            if i < front.len() {
                assert(lines[i] == front[i]);
            }
        }
        assert(lines[lines.len() - 1] == lines.last());
    }
}

/// What saving comes to from `step` on, with these outcomes of the steps.
pub open spec fn save_behind(
    s: AppView,
    step: SaveStep,
    outcomes: Seq<Result<(), Seq<char>>>,
    now: Moment,
) -> (AppView, SaveStep)
    decreases outcomes.len(),
{
    if outcomes.len() == 0 {
        (s, step)
    } else {
        let (next, next_step) = save_next(s, step, outcomes[0], now);
        save_behind(next, next_step, outcomes.skip(1), now)
    }
}

/// What saving comes to, with these outcomes of its steps.
pub open spec fn saving(
    s: AppView,
    watcher_is_file: bool,
    outcomes: Seq<Result<(), Seq<char>>>,
    now: Moment,
) -> (AppView, SaveStep) {
    let (checked, step) = save_started(s, watcher_is_file);
    save_behind(checked, step, outcomes, now)
}

/// The steps that have to succeed for the settings to be saved have done so.
pub open spec fn saves(
    s: AppView,
    watcher_is_file: bool,
    outcomes: Seq<Result<(), Seq<char>>>,
) -> bool {
    &&& !blocks_saving(complaints(s.settings_draft, watcher_is_file))
    &&& outcomes[0] is Ok
    &&& outcomes[1] is Ok
    &&& outcomes[2] is Ok
}

proof fn lemma_done_stays(s: AppView, outcomes: Seq<Result<(), Seq<char>>>, now: Moment)
    ensures
        save_behind(s, SaveStep::Done, outcomes, now) == (s, SaveStep::Done),
    decreases outcomes.len(),
{
    if outcomes.len() > 0 {
        lemma_done_stays(s, outcomes.skip(1), now);
    }
}

/// The state that saving ends in, with these outcomes of its steps.
spec fn saving_end(
    s: AppView,
    watcher_is_file: bool,
    outcomes: Seq<Result<(), Seq<char>>>,
    now: Moment,
) -> AppView {
    let (checked, step) = save_started(s, watcher_is_file);
    if step == SaveStep::Done {
        checked
    } else if outcomes[0] is Err {
        with_status(checked, "Cannot save: "@ + outcomes[0]->Err_0)
    } else if outcomes[1] is Err {
        with_status(checked, "Save failed: "@ + outcomes[1]->Err_0)
    } else if outcomes[2] is Err {
        with_status(
            checked,
            "Saved settings, but startup registration failed: "@ + outcomes[2]->Err_0,
        )
    } else {
        let saved = AppView { settings_saved: checked.settings_draft, ..checked };
        with_status(
            restarted(restarting(saved, now), outcomes[4]),
            "Saved. Watcher restarted."@,
        )
    }
}

proof fn lemma_saving_ends(
    s: AppView,
    watcher_is_file: bool,
    outcomes: Seq<Result<(), Seq<char>>>,
    now: Moment,
)
    requires
        outcomes.len() == 5,
    ensures
        saving(s, watcher_is_file, outcomes, now) == (
            saving_end(s, watcher_is_file, outcomes, now),
            SaveStep::Done,
        ),
{
    let (s0, step0) = save_started(s, watcher_is_file);
    let rest1 = outcomes.skip(1);
    let rest2 = rest1.skip(1);
    let rest3 = rest2.skip(1);
    let rest4 = rest3.skip(1);
    assert(rest1[0] == outcomes[1]);
    assert(rest2[0] == outcomes[2]);
    assert(rest3[0] == outcomes[3]);
    assert(rest4[0] == outcomes[4]);
    assert(rest4.skip(1) == Seq::<Result<(), Seq<char>>>::empty());
    let (s1, step1) = save_next(s0, step0, outcomes[0], now);
    let (s2, step2) = save_next(s1, step1, outcomes[1], now);
    let (s3, step3) = save_next(s2, step2, outcomes[2], now);
    let (s4, step4) = save_next(s3, step3, outcomes[3], now);
    let (s5, step5) = save_next(s4, step4, outcomes[4], now);
    reveal_with_fuel(save_behind, 6);
    if step0 == SaveStep::Done {
        lemma_done_stays(s0, outcomes, now);
    } else if step1 == SaveStep::Done {
        lemma_done_stays(s1, rest1, now);
    } else if step2 == SaveStep::Done {
        lemma_done_stays(s2, rest2, now);
    } else if step3 == SaveStep::Done {
        lemma_done_stays(s3, rest3, now);
    }
}

/// What the window shows beside the settings form is the same.
pub open spec fn same_window(a: AppView, b: AppView) -> bool {
    &&& a.tab == b.tab
    &&& a.auto_scroll == b.auto_scroll
    &&& a.minimize_pending == b.minimize_pending
    &&& a.last_tray_status == b.last_tray_status
}

/// Saving is all or nothing for the saved settings in memory: where the draft passes, resolves, is
/// written and is registered, it becomes the saved settings and a start of the watcher is attempted,
/// which the log tells of; else the saved settings, the log and the stats stay as they were, though
/// the file has been written where only the registration failed. Either way saving is over behind
/// its five steps, and the draft stays.
pub proof fn law_saving_is_all_or_nothing(
    s: AppView,
    watcher_is_file: bool,
    outcomes: Seq<Result<(), Seq<char>>>,
    now: Moment,
)
    requires
        outcomes.len() == 5,
    ensures
        ({
            let (end, step) = saving(s, watcher_is_file, outcomes, now);
            &&& step == SaveStep::Done
            &&& end.settings_draft == s.settings_draft
            &&& same_window(end, s)
            &&& saves(s, watcher_is_file, outcomes) ==> {
                &&& end.settings_saved == s.settings_draft
                &&& end.save_status == Some("Saved. Watcher restarted."@)
                &&& end.local_stats == fresh_stats(now)
                &&& end.log_lines == restarted(restarting(s, now), outcomes[4]).log_lines
            }
            &&& !saves(s, watcher_is_file, outcomes) ==> {
                &&& end.settings_saved == s.settings_saved
                &&& end.local_stats == s.local_stats
                &&& end.log_lines == s.log_lines
            }
        }),
{
    lemma_saving_ends(s, watcher_is_file, outcomes, now);
}

/// Behind a revert the draft is the saved settings, so there is nothing to save; the saved settings
/// stay, and a second revert changes nothing.
pub proof fn law_reverted_draft_is_clean(s: AppView)
    ensures
        reverted(s).settings_draft == reverted(s).settings_saved,
        reverted(s).settings_saved == s.settings_saved,
        reverted(reverted(s)) == reverted(s),
        reverted(s).validation_errors.len() == 0,
        reverted(s).save_status is None,
        reverted(s).log_lines == s.log_lines,
        reverted(s).local_stats == s.local_stats,
        same_window(reverted(s), s),
{
}

/// The icon is drawn once for each status: shown the same again, it stays as it is; and it is drawn
/// whenever its status is another than the last.
pub proof fn law_icon_is_drawn_on_change(s: AppView, first: DisplaySnap, second: DisplaySnap)
    ensures
        icon_to_draw(tray_synced(s, first), second) is None <==> icon_status(first) == icon_status(
            second,
        ),
        icon_to_draw(s, first) matches Some(status) ==> status == (if first.starting {
            Status::Unknown
        } else {
            first.status
        }) && s.last_tray_status != Some(status),
        icon_to_draw(s, first) is None ==> s.last_tray_status == Some(
            if first.starting {
                Status::Unknown
            } else {
                first.status
            },
        ),
        s.last_tray_status is None ==> icon_to_draw(s, first) is Some,
        tray_synced(s, first) == (AppView {
            last_tray_status: tray_synced(s, first).last_tray_status,
            ..s
        }),
{
}

/// `s` holds no `c` at `i` or behind it.
spec fn lacks_from(s: Seq<char>, c: char, i: int) -> bool
    decreases s.len() - i,
{
    i >= s.len() || (s[i] != c && lacks_from(s, c, i + 1))
}

proof fn lemma_lacks(s: Seq<char>, c: char, i: int, k: int)
    requires
        lacks_from(s, c, i),
        i <= k < s.len(),
    ensures
        s[k] != c,
    decreases s.len() - i,
{
    if i < k {
        lemma_lacks(s, c, i + 1, k);
    }
}

/// A text without an `f` does not say that something was not found.
proof fn lemma_says_nothing_of_finding(s: Seq<char>)
    requires
        lacks_from(s, 'f', 0),
    ensures
        !occurs_in("not found"@, s),
{
    reveal_strlit("not found");
    assert("not found"@.len() == 9 && "not found"@[4] == 'f');
    assert forall|at: int| !#[trigger] found_at(s, "not found"@, at) by {
        if found_at(s, "not found"@, at) {
            assert(s.subrange(at, at + 9)[4] == s[at + 4]);
            lemma_lacks(s, 'f', 0, at + 4);
        }
    }
}

/// What keeps settings from being saved is a missing executable, and nothing else that is said of
/// them does.
pub proof fn law_only_a_missing_executable_blocks(draft: SettingsView, watcher_is_file: bool)
    ensures
        blocks_saving(complaints(draft, watcher_is_file)) <==> watcher_missing(
            draft,
            watcher_is_file,
        ),
        blocks_saving(complaints(draft, watcher_is_file)) <==> trimmed(draft.watcher_exe).len() > 0
            && !watcher_is_file,
{
    let port = "SSE port must be non-zero"@;
    let name = "Node name will be truncated to 64 characters"@;
    let head = "Watcher executable not found: "@;
    let missing = head + trimmed(draft.watcher_exe);
    let errors = complaints(draft, watcher_is_file);
    reveal_strlit("SSE port must be non-zero");
    reveal_strlit("Node name will be truncated to 64 characters");
    reveal_strlit("Watcher executable not found: ");
    reveal_strlit("not found");
    assert(!occurs_in("not found"@, port)) by {
        reveal_with_fuel(lacks_from, 30);
        lemma_says_nothing_of_finding(port);
    }
    assert(!occurs_in("not found"@, name)) by {
        reveal_with_fuel(lacks_from, 50);
        lemma_says_nothing_of_finding(name);
    }
    assert(occurs_in("not found"@, missing)) by {
        assert(head.subrange(19, 28) == "not found"@);
        assert(missing.subrange(19, 28) == head.subrange(19, 28));
        assert(found_at(missing, "not found"@, 19));
    }
    if watcher_missing(draft, watcher_is_file) {
        let i: int = if draft.sse_enabled && draft.sse_port == 0 {
            1
        } else {
            0
        };
        assert(errors[i] == missing);
    } else {
        assert forall|i: int| 0 <= i < errors.len() implies !occurs_in(
            "not found"@,
            #[trigger] errors[i],
        ) by {
            assert(errors[i] == port || errors[i] == name);
        }
    }
}

/// The status below the form says that the settings are saved exactly where they are in memory and
/// the start of the watcher was attempted. It says the same whatever came of that start, which the
/// log alone tells.
pub proof fn law_status_tells_what_was_saved(
    s: AppView,
    watcher_is_file: bool,
    outcomes: Seq<Result<(), Seq<char>>>,
    now: Moment,
)
    requires
        outcomes.len() == 5,
    ensures
        saving(s, watcher_is_file, outcomes, now).0.save_status == Some(
            "Saved. Watcher restarted."@,
        ) <==> saves(s, watcher_is_file, outcomes),
{
    lemma_saving_ends(s, watcher_is_file, outcomes, now);
    reveal_strlit("Saved. Watcher restarted.");
    reveal_strlit("Fix validation errors before saving.");
    reveal_strlit("Cannot save: ");
    reveal_strlit("Save failed: ");
    reveal_strlit("Saved settings, but startup registration failed: ");
    let good = "Saved. Watcher restarted."@;
    if blocks_saving(complaints(s.settings_draft, watcher_is_file)) {
        assert("Fix validation errors before saving."@[0] != good[0]);
    } else if outcomes[0] is Err {
        assert(("Cannot save: "@ + outcomes[0]->Err_0)[0] != good[0]);
    } else if outcomes[1] is Err {
        assert(("Save failed: "@ + outcomes[1]->Err_0)[4] != good[4]);
    } else if outcomes[2] is Err {
        assert(("Saved settings, but startup registration failed: "@ + outcomes[2]->Err_0)[5]
            != good[5]);
    }
}

/// The check of the draft and the choice of its executable agree: what the one reports as missing
/// is what the other refuses.
pub proof fn law_check_and_choice_agree(draft: SettingsView, is_file: bool)
    ensures
        watcher_missing(draft, is_file) <==> chosen_exe(draft.watcher_exe, is_file) is Refused,
{
}

/// The sign-in step carries the draft's own switch: whenever a step asks for a registration, it asks
/// for what the draft says, whatever came before and whatever the outcomes are.
pub proof fn law_registration_follows_the_draft(
    s: AppView,
    step: SaveStep,
    outcome: Result<(), Seq<char>>,
    now: Moment,
)
    ensures
        save_next(s, step, outcome, now).1 matches SaveStep::ApplyStartup(enabled) ==> enabled
            == s.settings_draft.start_with_windows,
        save_next(s, step, outcome, now).0.settings_draft == s.settings_draft,
{
}

/// Behind a save that succeeds, the application is registered for sign-in exactly if the saved
/// settings say so, whatever was registered before: the third step asks for it, and what that call
/// leaves under the Run key agrees with the settings.
pub proof fn law_saved_settings_and_registration_agree(
    s: AppView,
    watcher_is_file: bool,
    outcomes: Seq<Result<(), Seq<char>>>,
    now: Moment,
    key: RunKey,
    call: StartupCall,
)
    requires
        outcomes.len() == 5,
        saves(s, watcher_is_file, outcomes),
        all_made(key, seq![call]),
        saving(s, watcher_is_file, outcomes.take(2), now).1 == SaveStep::ApplyStartup(call.enabled),
    ensures
        key_behind(key, seq![call]).contains_key(run_name()) <==> saving(
            s,
            watcher_is_file,
            outcomes,
            now,
        ).0.settings_saved.start_with_windows,
{
    law_saving_is_all_or_nothing(s, watcher_is_file, outcomes, now);
    law_last_change_decides(key, seq![call]);
    let two = outcomes.take(2);
    reveal_with_fuel(save_behind, 3);
    assert(two[0] == outcomes[0]);
    assert(two.skip(1)[0] == outcomes[1]);
    assert(two.skip(1).skip(1).len() == 0);
}

/// Saving takes its steps in their order, one behind each success: the executable, the file, the
/// registration that the draft asks for, the adoption, the start of the watcher.
pub proof fn law_saving_takes_its_steps_in_order(
    s: AppView,
    watcher_is_file: bool,
    outcomes: Seq<Result<(), Seq<char>>>,
    now: Moment,
)
    requires
        trimmed(s.settings_draft.watcher_exe).len() == 0 || watcher_is_file,
        outcomes.len() >= 4,
        forall|i: int| 0 <= i < outcomes.len() ==> (#[trigger] outcomes[i]) is Ok,
    ensures
        saving(s, watcher_is_file, outcomes.take(0), now).1 == SaveStep::ResolveExe,
        saving(s, watcher_is_file, outcomes.take(1), now).1 == SaveStep::WriteSettings,
        saving(s, watcher_is_file, outcomes.take(2), now).1 == SaveStep::ApplyStartup(
            s.settings_draft.start_with_windows,
        ),
        saving(s, watcher_is_file, outcomes.take(3), now).1 == SaveStep::AdoptSettings,
        saving(s, watcher_is_file, outcomes.take(4), now).1 == SaveStep::StartWatcher,
{
    law_only_a_missing_executable_blocks(s.settings_draft, watcher_is_file);
    assert(outcomes[0] is Ok && outcomes[1] is Ok && outcomes[2] is Ok && outcomes[3] is Ok);
    reveal_with_fuel(save_behind, 6);
    let t1 = outcomes.take(1);
    let t2 = outcomes.take(2);
    let t3 = outcomes.take(3);
    let t4 = outcomes.take(4);
    assert(t1.skip(1).len() == 0);
    assert(t2.skip(1)[0] == outcomes[1] && t2.skip(1).skip(1).len() == 0);
    assert(t3.skip(1)[0] == outcomes[1] && t3.skip(1).skip(1)[0] == outcomes[2]);
    assert(t3.skip(1).skip(1).skip(1).len() == 0);
    assert(t4.skip(1)[0] == outcomes[1] && t4.skip(1).skip(1)[0] == outcomes[2]);
    assert(t4.skip(1).skip(1).skip(1)[0] == outcomes[3]);
    assert(t4.skip(1).skip(1).skip(1).skip(1).len() == 0);
}

/// A failure ends the saving and is told with its reason, each step in its own words; and what the
/// draft was checked for is shown.
pub proof fn law_failure_names_its_step(
    s: AppView,
    watcher_is_file: bool,
    outcomes: Seq<Result<(), Seq<char>>>,
    now: Moment,
)
    requires
        outcomes.len() == 5,
    ensures
        ({
            let end = saving(s, watcher_is_file, outcomes, now).0;
            let blocked = trimmed(s.settings_draft.watcher_exe).len() > 0 && !watcher_is_file;
            &&& end.validation_errors == complaints(s.settings_draft, watcher_is_file)
            &&& blocked ==> end.save_status == Some("Fix validation errors before saving."@)
            &&& !blocked ==> (outcomes[0] matches Err(e) ==> end.save_status == Some(
                "Cannot save: "@ + e,
            ))
            &&& !blocked && outcomes[0] is Ok ==> (outcomes[1] matches Err(e) ==> end.save_status
                == Some("Save failed: "@ + e))
            &&& !blocked && outcomes[0] is Ok && outcomes[1] is Ok ==> (outcomes[2] matches Err(e)
                ==> end.save_status == Some(
                "Saved settings, but startup registration failed: "@ + e,
            ))
            &&& saves(s, watcher_is_file, outcomes) ==> end.log_lines == s.log_lines.push(
                "[TRAY] Restarting watcher..."@,
            ) + (match outcomes[4] {
                Ok(_) => Seq::<Seq<char>>::empty(),
                Err(e) => seq!["[TRAY] restart failed: "@ + e],
            })
        }),
{
    law_only_a_missing_executable_blocks(s.settings_draft, watcher_is_file);
    lemma_saving_ends(s, watcher_is_file, outcomes, now);
}

/// While the health page is not reached, what is shown counts from the last start of the watcher:
/// behind a restart at `start` the uptime is the whole seconds since then, and the notifications are
/// those that the log has reported since then, whatever was shown before the restart.
pub proof fn law_restart_counts_afresh(
    s: AppView,
    start: Moment,
    lines: Seq<(Seq<char>, Moment)>,
    http: HealthSnapshot,
    now: Moment,
    k: u64,
    part: u64,
)
    requires
        !http.reachable,
        part < 1_000_000_000,
        now.nanos == start.nanos + k * 1_000_000_000 + part,
        notification_count(lines) <= u64::MAX,
    ensures
        ({
            let snap = shown(stats_behind(restarting(s, start).local_stats, lines), http, now);
            &&& snap.uptime_seconds == k
            &&& snap.notifications == notification_count(lines)
            &&& lines.len() == 0 ==> snap.starting && snap.last is None && snap.notifications == 0
            &&& snap.last is Some <==> notification_count(lines) > 0
        }),
{
    law_stats_count_notifications(start, lines);
    let stats = stats_behind(restarting(s, start).local_stats, lines);
    law_uptime_counts_from_the_start(stats, http, now, 0, k, part);
}

/// A restart touches the log and the stats, and nothing else: the log gets one line, and one more
/// where the start fails.
pub proof fn law_restart_is_logged(s: AppView, now: Moment, outcome: Result<(), Seq<char>>)
    ensures
        ({
            let end = restarted(restarting(s, now), outcome);
            &&& outcome is Ok ==> end.log_lines == s.log_lines.push("[TRAY] Restarting watcher..."@)
            &&& outcome matches Err(e) ==> end.log_lines == s.log_lines.push(
                "[TRAY] Restarting watcher..."@,
            ).push("[TRAY] restart failed: "@ + e)
            &&& end.settings_draft == s.settings_draft
            &&& end.settings_saved == s.settings_saved
            &&& end.validation_errors == s.validation_errors
            &&& end.save_status == s.save_status
            &&& same_window(end, s)
            &&& end.local_stats == (LocalStats {
                started_at: now,
                ready: false,
                notifications: 0,
                last_notification_at: None,
            })
        }),
{
}

} // verus!
