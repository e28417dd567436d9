//! The tray application's state: what it shows, what it logs, and how settings are saved.

use vstd::prelude::*;
use vstd::string::*;

use crate::config::{
    bind_address, environment, lemma_bind_variable, PathsView, Settings, SettingsView,
};
use crate::health::{law_status_names, status_named, HealthSnapshot, Status};
use crate::number::{decimal, decimal_text, two_digit_text, two_digits};
use crate::text::{contains, occurs_in};

verus! {

/// How many log lines are kept.
pub const MAX_LOG_LINES: usize = 5000;

/// The seconds of silence behind which the watcher counts as stalled.
pub const STALL_SECS: u64 = 180;

/// A reading of a clock that only goes forward, in nanoseconds.
#[derive(Debug, Clone, Copy, PartialEq, Eq, Structural)]
pub struct Moment {
    pub nanos: u64,
}

/// The whole seconds from `then` to `now`; none where `then` is still to come.
pub open spec fn seconds_since(then: Moment, now: Moment) -> u64 {
    if now.nanos >= then.nanos {
        ((now.nanos - then.nanos) / 1_000_000_000) as u64
    } else {
        0
    }
}

impl Moment {
    /// The whole seconds from this moment to `now`.
    pub fn elapsed_secs(self, now: Moment) -> (r: u64)
        ensures
            r == seconds_since(self, now),
            now.nanos >= self.nanos ==> r * 1_000_000_000 <= now.nanos - self.nanos < (r + 1)
                * 1_000_000_000,
            now.nanos < self.nanos ==> r == 0,
    {
        now.nanos.saturating_sub(self.nanos) / 1_000_000_000
    }
}

/// What the application knows of the watcher from its start and its log lines alone. It stands in
/// for the watcher's health page while that cannot be reached.
#[derive(Debug, Clone, Copy, PartialEq, Eq)]
pub struct LocalStats {
    pub started_at: Moment,
    pub ready: bool,
    pub notifications: u64,
    pub last_notification_at: Option<Moment>,
}

/// The stats of a watcher that starts now.
pub open spec fn fresh_stats(now: Moment) -> LocalStats {
    LocalStats { started_at: now, ready: false, notifications: 0, last_notification_at: None }
}

/// `line` reports a notification.
pub open spec fn is_notification(line: Seq<char>) -> bool {
    occurs_in("PODPING:"@, line)
}

/// `line` reports that the watcher has joined.
pub open spec fn is_subscription(line: Seq<char>) -> bool {
    occurs_in("Subscribed to gossip topic"@, line)
}

/// The stats behind `line`.
pub open spec fn stats_after(s: LocalStats, line: Seq<char>, now: Moment) -> LocalStats {
    LocalStats {
        started_at: s.started_at,
        ready: s.ready || is_subscription(line) || is_notification(line),
        notifications: if is_notification(line) {
            (s.notifications + 1) as u64
        } else {
            s.notifications
        },
        last_notification_at: if is_notification(line) {
            Some(now)
        } else {
            s.last_notification_at
        },
    }
}

impl LocalStats {
    /// The stats of a watcher that starts now.
    pub fn new(now: Moment) -> (r: Self)
        ensures
            r == fresh_stats(now),
    {
        LocalStats { started_at: now, ready: false, notifications: 0, last_notification_at: None }
    }

    /// Takes in a line of the watcher's log.
    pub fn observe(&mut self, line: &str, now: Moment)
        requires
            is_notification(line@) ==> old(self).notifications < u64::MAX,
        ensures
            *final(self) == stats_after(*old(self), line@, now),
            final(self).started_at == old(self).started_at,
            occurs_in("PODPING:"@, line@) ==> final(self).notifications == old(self).notifications
                + 1 && final(self).last_notification_at == Some(now) && final(self).ready,
            !occurs_in("PODPING:"@, line@) ==> final(self).notifications
                == old(self).notifications && final(self).last_notification_at
                == old(self).last_notification_at && (final(self).ready <==> old(self).ready
                || occurs_in("Subscribed to gossip topic"@, line@)),
    {
        if contains(line, "Subscribed to gossip topic") {
            self.ready = true;
        }
        if contains(line, "PODPING:") {
            self.notifications = self.notifications + 1;
            self.last_notification_at = Some(now);
            self.ready = true;
        }
    }
}

/// What is shown of the watcher.
#[derive(Debug, Clone, Copy, PartialEq, Eq)]
pub struct DisplaySnap {
    pub status: Status,
    pub starting: bool,
    pub uptime_seconds: u64,
    pub notifications: u64,
    /// The seconds since the last notification, where there was one.
    pub last: Option<u64>,
}

/// What is shown: the health page where it could be reached, and the local stats where not.
pub open spec fn shown(stats: LocalStats, http: HealthSnapshot, now: Moment) -> DisplaySnap {
    if http.reachable {
        DisplaySnap {
            status: http.status,
            starting: false,
            uptime_seconds: http.uptime_seconds,
            notifications: http.notifications_received,
            last: if http.notifications_received > 0 {
                Some(http.seconds_since_last_notification)
            } else {
                None
            },
        }
    } else {
        let last = match stats.last_notification_at {
            Some(t) => Some(seconds_since(t, now)),
            None => None,
        };
        DisplaySnap {
            status: if !stats.ready {
                Status::Unknown
            } else if last is Some && last->0 > 180 {
                Status::Stalled
            } else {
                Status::Okay
            },
            starting: !stats.ready,
            uptime_seconds: seconds_since(stats.started_at, now),
            notifications: stats.notifications,
            last,
        }
    }
}

/// `secs` in the two largest units that fit: seconds; minutes and seconds; hours and minutes; or
/// days and hours.
pub open spec fn duration_text(secs: nat) -> Seq<char> {
    if secs < 60 {
        decimal(secs) + "s"@
    } else if secs < 3600 {
        decimal(secs / 60) + "m"@ + two_digits(secs % 60) + "s"@
    } else if secs < 86400 {
        decimal(secs / 3600) + "h"@ + two_digits((secs % 3600) / 60) + "m"@
    } else {
        decimal(secs / 86400) + "d"@ + two_digits((secs % 86400) / 3600) + "h"@
    }
}

/// `secs` in the two largest units that fit.
pub fn format_duration(secs: u64) -> (r: String)
    ensures
        r@ == duration_text(secs as nat),
{
    if secs < 60 {
        decimal_text(secs).concat("s")
    } else if secs < 3600 {
        decimal_text(secs / 60).concat("m").concat(two_digit_text(secs % 60).as_str()).concat("s")
    } else if secs < 86400 {
        decimal_text(secs / 3600).concat("h").concat(
            two_digit_text((secs % 3600) / 60).as_str(),
        ).concat("m")
    } else {
        decimal_text(secs / 86400).concat("d").concat(
            two_digit_text((secs % 86400) / 3600).as_str(),
        ).concat("h")
    }
}

/// The name of a status.
pub open spec fn status_text(status: Status) -> Seq<char> {
    match status {
        Status::Okay => "OK"@,
        Status::Degraded => "DEGRADED"@,
        Status::Stalled => "STALLED"@,
        Status::Unknown => "UNKNOWN"@,
    }
}

/// The name of a status.
pub fn status_name(status: Status) -> (r: &'static str)
    ensures
        r@ == status_text(status),
{
    match status {
        Status::Okay => "OK",
        Status::Degraded => "DEGRADED",
        Status::Stalled => "STALLED",
        Status::Unknown => "UNKNOWN",
    }
}

/// How long ago the last notification came.
pub open spec fn last_text(last: Option<u64>) -> Seq<char> {
    match last {
        Some(secs) => decimal(secs as nat) + "s ago"@,
        None => "—"@,
    }
}

/// How long ago the last notification came.
pub fn last_label(last: Option<u64>) -> (r: String)
    ensures
        r@ == last_text(last),
{
    match last {
        Some(secs) => decimal_text(secs).concat("s ago"),
        None => "—".to_owned(),
    }
}

/// The tray icon's tooltip.
pub open spec fn tooltip(snap: DisplaySnap) -> Seq<char> {
    if snap.starting {
        "Podping Gossip Watcher — starting | Uptime "@ + duration_text(snap.uptime_seconds as nat)
    } else {
        "Podping Gossip Watcher — "@ + status_text(snap.status) + " | Uptime "@ + duration_text(
            snap.uptime_seconds as nat,
        ) + " | "@ + decimal(snap.notifications as nat) + " notifs | last "@ + last_text(snap.last)
    }
}

/// The tray icon's tooltip.
pub fn tooltip_for(snap: &DisplaySnap) -> (r: String)
    ensures
        r@ == tooltip(*snap),
{
    if snap.starting {
        return "Podping Gossip Watcher — starting | Uptime ".to_owned().concat(
            format_duration(snap.uptime_seconds).as_str(),
        );
    }
    "Podping Gossip Watcher — ".to_owned().concat(status_name(snap.status)).concat(
        " | Uptime ",
    ).concat(format_duration(snap.uptime_seconds).as_str()).concat(" | ").concat(
        decimal_text(snap.notifications).as_str(),
    ).concat(" notifs | last ").concat(last_label(snap.last).as_str())
}

/// A colour: red, green and blue.
#[derive(Debug, Clone, Copy, PartialEq, Eq, Structural)]
pub struct Rgb {
    pub r: u8,
    pub g: u8,
    pub b: u8,
}

/// The colour of a status.
pub open spec fn colour_of(status: Status) -> Rgb {
    match status {
        Status::Okay => Rgb { r: 63, g: 185, b: 80 },
        Status::Degraded => Rgb { r: 210, g: 153, b: 34 },
        Status::Stalled => Rgb { r: 248, g: 81, b: 73 },
        Status::Unknown => Rgb { r: 139, g: 148, b: 158 },
    }
}

/// The colour of a status.
pub fn status_colour(status: Status) -> (r: Rgb)
    ensures
        r == colour_of(status),
{
    match status {
        Status::Okay => Rgb { r: 63, g: 185, b: 80 },
        Status::Degraded => Rgb { r: 210, g: 153, b: 34 },
        Status::Stalled => Rgb { r: 248, g: 81, b: 73 },
        Status::Unknown => Rgb { r: 139, g: 148, b: 158 },
    }
}

/// The status that the tray icon shows: unknown while the watcher starts.
pub open spec fn icon_status(snap: DisplaySnap) -> Status {
    if snap.starting {
        Status::Unknown
    } else {
        snap.status
    }
}

/// The badge at the window's top: its text and colour.
pub fn status_badge(snap: &DisplaySnap) -> (r: (&'static str, Rgb))
    ensures
        r.0@ == (if snap.starting {
            "STARTING"@
        } else {
            status_text(snap.status)
        }),
        r.1 == colour_of(icon_status(*snap)),
{
    if snap.starting {
        ("STARTING", Rgb { r: 139, g: 148, b: 158 })
    } else {
        (status_name(snap.status), status_colour(snap.status))
    }
}

/// The labels at the window's top.
#[derive(Debug, PartialEq, Eq)]
pub struct Header {
    pub uptime: String,
    pub notifications: String,
    pub last: String,
}

/// The labels at the window's top.
pub fn header(snap: &DisplaySnap) -> (r: Header)
    ensures
        r.uptime@ == "Uptime: "@ + duration_text(snap.uptime_seconds as nat),
        r.notifications@ == "Notifications: "@ + decimal(snap.notifications as nat),
        r.last@ == "Last: "@ + last_text(snap.last),
{
    Header {
        uptime: "Uptime: ".to_owned().concat(format_duration(snap.uptime_seconds).as_str()),
        notifications: "Notifications: ".to_owned().concat(
            decimal_text(snap.notifications).as_str(),
        ),
        last: "Last: ".to_owned().concat(last_label(snap.last).as_str()),
    }
}

/// The dashboard's address; empty while there is no web server.
pub open spec fn dashboard_url(s: SettingsView) -> Seq<char> {
    if s.sse_enabled {
        "http://127.0.0.1:"@ + decimal(s.sse_port as nat) + "/"@
    } else {
        Seq::empty()
    }
}

/// The dashboard's address; empty while there is no web server.
pub fn dashboard_url_for(settings: &Settings) -> (r: String)
    ensures
        r@ == dashboard_url(settings@),
        settings.sse_enabled ==> r@ == "http://127.0.0.1:"@ + decimal(settings.sse_port as nat)
            + "/"@,
        !settings.sse_enabled ==> r@.len() == 0,
{
    if settings.sse_enabled {
        "http://127.0.0.1:".to_owned().concat(
            decimal_text(settings.sse_port as u64).as_str(),
        ).concat("/")
    } else {
        String::new()
    }
}

/// The port on which the watcher's health is to be asked for; none while there is no web server.
pub fn poll_port(sse_enabled: bool, sse_port: u16) -> (r: Option<u16>)
    ensures
        r == (if sse_enabled {
            Some(sse_port)
        } else {
            None
        }),
{
    if !sse_enabled {
        return None;
    }
    Some(sse_port)
}

/// Tells whether two settings are the same.
pub fn settings_eq(a: &Settings, b: &Settings) -> (r: bool)
    ensures
        r == (a@ == b@),
        r <==> {
            &&& a.node_friendly_name@ == b.node_friendly_name@
            &&& a.archive_enabled == b.archive_enabled
            &&& a.catchup_enabled == b.catchup_enabled
            &&& a.sse_enabled == b.sse_enabled
            &&& a.sse_port == b.sse_port
            &&& a.watcher_exe@ == b.watcher_exe@
            &&& a.bootstrap_peer_ids@ == b.bootstrap_peer_ids@
            &&& a.peer_announce_interval == b.peer_announce_interval
            &&& a.peer_endorse_interval == b.peer_endorse_interval
            &&& a.sse_buffer_size == b.sse_buffer_size
            &&& a.trace_to_file == b.trace_to_file
            &&& a.start_with_windows == b.start_with_windows
        },
{
    a.node_friendly_name == b.node_friendly_name && a.archive_enabled == b.archive_enabled
        && a.catchup_enabled == b.catchup_enabled && a.sse_enabled == b.sse_enabled && a.sse_port
        == b.sse_port && a.watcher_exe == b.watcher_exe && a.bootstrap_peer_ids
        == b.bootstrap_peer_ids && a.peer_announce_interval == b.peer_announce_interval
        && a.peer_endorse_interval == b.peer_endorse_interval && a.sse_buffer_size
        == b.sse_buffer_size && a.trace_to_file == b.trace_to_file && a.start_with_windows
        == b.start_with_windows
}

/// The dashboard is where the watcher serves it: its address is that to which the watcher is told
/// to bind, and there is one exactly where the watcher is told of any.
pub proof fn law_dashboard_is_where_the_watcher_serves(s: SettingsView, paths: PathsView)
    ensures
        s.sse_enabled <==> environment(s, paths).contains_key("SSE_BIND_ADDR"@),
        s.sse_enabled ==> dashboard_url(s) == "http://"@ + environment(
            s,
            paths,
        )["SSE_BIND_ADDR"@] + "/"@,
        !s.sse_enabled ==> dashboard_url(s).len() == 0,
{
    lemma_bind_variable(s, paths);
    reveal_strlit("http://127.0.0.1:");
    reveal_strlit("http://");
    reveal_strlit("127.0.0.1:");
    assert("http://127.0.0.1:"@ == "http://"@ + "127.0.0.1:"@);
    assert("http://"@ + bind_address(s.sse_port) == "http://127.0.0.1:"@ + decimal(
        s.sse_port as nat,
    ));
}

/// Wherever the health page was reached, what is shown is taken from it alone: neither the log nor the
/// time matters. A page without notifications says nothing of the last one.
pub proof fn law_shown_status_of_the_health_page(
    stats: LocalStats,
    http: HealthSnapshot,
    now: Moment,
)
    requires
        http.reachable,
    ensures
        ({
            let snap = shown(stats, http, now);
            &&& !snap.starting
            &&& snap.status == http.status
            &&& snap.uptime_seconds == http.uptime_seconds
            &&& snap.notifications == http.notifications_received
            &&& snap.last is Some <==> snap.notifications > 0
            &&& snap.last is Some ==> snap.last->0 == http.seconds_since_last_notification
            &&& forall|other: LocalStats, later: Moment| #[trigger]
                shown(other, http, later) == snap
        }),
{
}

/// Where the health page was not reached, what is shown is taken from the log: a watcher that is
/// starting is shown as unknown, and only silence makes one that is not starting stalled.
pub proof fn law_shown_status_without_the_health_page(
    stats: LocalStats,
    http: HealthSnapshot,
    now: Moment,
)
    requires
        !http.reachable,
    ensures
        shown(stats, http, now).starting == !stats.ready,
        shown(stats, http, now).starting ==> shown(stats, http, now).status == Status::Unknown,
        stats.ready ==> (shown(stats, http, now).status == Status::Stalled <==> (
        stats.last_notification_at is Some && seconds_since(stats.last_notification_at->0, now)
            > 180)),
        stats.ready ==> (shown(stats, http, now).status == Status::Stalled <==> (
        stats.last_notification_at is Some && now.nanos - stats.last_notification_at->0.nanos
            >= 181_000_000_000)),
        shown(stats, http, now).notifications == stats.notifications,
        stats.ready ==> shown(stats, http, now).status != Status::Unknown,
        shown(stats, http, now).status != Status::Degraded,
{
}

/// The seconds between two moments are whole ones: as many as were put between them, whatever part
/// of a second comes on top; and only the distance of the moments counts.
pub proof fn law_whole_seconds(then: Moment, now: Moment, shift: u64, k: u64, part: u64)
    requires
        part < 1_000_000_000,
        now.nanos == then.nanos + k * 1_000_000_000 + part,
        now.nanos + shift <= u64::MAX,
    ensures
        seconds_since(then, now) == k,
        seconds_since(
            Moment { nanos: (then.nanos + shift) as u64 },
            Moment { nanos: (now.nanos + shift) as u64 },
        ) == k,
        now.nanos > then.nanos ==> seconds_since(now, then) == 0,
{
}

/// While the health page is not reached, the uptime is counted from the watcher's start: `k` seconds
/// and a part of one later it is `k`, and moving the start and the clock together changes nothing.
/// The time since the last notification is counted likewise from that one.
pub proof fn law_uptime_counts_from_the_start(
    stats: LocalStats,
    http: HealthSnapshot,
    now: Moment,
    shift: u64,
    k: u64,
    part: u64,
)
    requires
        !http.reachable,
        part < 1_000_000_000,
        now.nanos + shift <= u64::MAX,
    ensures
        now.nanos == stats.started_at.nanos + k * 1_000_000_000 + part ==> {
            &&& shown(stats, http, now).uptime_seconds == k
            &&& shown(
                LocalStats {
                    started_at: Moment { nanos: (stats.started_at.nanos + shift) as u64 },
                    ..stats
                },
                http,
                Moment { nanos: (now.nanos + shift) as u64 },
            ).uptime_seconds == k
        },
        stats.last_notification_at matches Some(at) ==> now.nanos == at.nanos + k * 1_000_000_000
            + part ==> shown(stats, http, now).last == Some(k),
        stats.last_notification_at is None ==> shown(stats, http, now).last is None,
{
}

/// A duration is told in its two largest units: days and hours, hours and minutes, minutes and
/// seconds, or seconds alone; what is smaller is left out, and the second unit has two digits.
pub proof fn law_duration_units(days: nat, hours: nat, minutes: nat, seconds: nat)
    requires
        hours < 24,
        minutes < 60,
        seconds < 60,
    ensures
        duration_text(seconds) == decimal(seconds) + "s"@,
        minutes > 0 ==> duration_text(minutes * 60 + seconds) == decimal(minutes) + "m"@
            + two_digits(seconds) + "s"@,
        hours > 0 ==> duration_text(hours * 3600 + minutes * 60 + seconds) == decimal(hours) + "h"@
            + two_digits(minutes) + "m"@,
        days > 0 ==> duration_text(days * 86400 + hours * 3600 + minutes * 60 + seconds) == decimal(
            days,
        ) + "d"@ + two_digits(hours) + "h"@,
{
    assert((minutes * 60 + seconds) / 60 == minutes);
    assert((minutes * 60 + seconds) % 60 == seconds);
    let h = hours * 3600 + minutes * 60 + seconds;
    assert(h / 3600 == hours);
    assert((h % 3600) / 60 == minutes);
    let d = days * 86400 + h;
    assert(d / 86400 == days);
    assert((d % 86400) / 3600 == hours);
}

/// `parts`, with a bar between each two.
pub open spec fn barred(parts: Seq<Seq<char>>) -> Seq<char>
    decreases parts.len(),
{
    if parts.len() == 0 {
        Seq::empty()
    } else if parts.len() == 1 {
        parts[0]
    } else {
        parts[0] + " | "@ + barred(parts.skip(1))
    }
}

/// The tooltip tells the status, the uptime, the notifications and the last one, in that order and
/// with bars between them; of a watcher that is starting, only that and the uptime.
pub proof fn law_tooltip_parts(snap: DisplaySnap)
    ensures
        snap.starting ==> tooltip(snap) == barred(
            seq![
                "Podping Gossip Watcher — starting"@,
                "Uptime "@ + duration_text(snap.uptime_seconds as nat),
            ],
        ),
        !snap.starting ==> tooltip(snap) == barred(
            seq![
                "Podping Gossip Watcher — "@ + status_text(snap.status),
                "Uptime "@ + duration_text(snap.uptime_seconds as nat),
                decimal(snap.notifications as nat) + " notifs"@,
                "last "@ + last_text(snap.last),
            ],
        ),
        snap.last is None ==> last_text(snap.last) == "—"@,
        snap.last matches Some(secs) ==> last_text(snap.last) == decimal(secs as nat) + "s ago"@,
{
    reveal_strlit("Podping Gossip Watcher — starting | Uptime ");
    reveal_strlit("Podping Gossip Watcher — starting");
    reveal_strlit("Uptime ");
    reveal_strlit(" | Uptime ");
    reveal_strlit(" | ");
    reveal_strlit(" notifs | last ");
    reveal_strlit(" notifs");
    reveal_strlit("last ");
    reveal_with_fuel(barred, 5);
    assert("Podping Gossip Watcher — starting | Uptime "@ == "Podping Gossip Watcher — starting"@
        + " | "@ + "Uptime "@);
    assert(" | Uptime "@ == " | "@ + "Uptime "@);
    assert(" notifs | last "@ == " notifs"@ + " | "@ + "last "@);
    let up = "Uptime "@ + duration_text(snap.uptime_seconds as nat);
    let told = decimal(snap.notifications as nat) + " notifs"@;
    let last = "last "@ + last_text(snap.last);
    if snap.starting {
        let parts = seq!["Podping Gossip Watcher — starting"@, up];
        assert(parts.skip(1) == seq![up]);
        assert(tooltip(snap) == barred(parts));
    } else {
        let head = "Podping Gossip Watcher — "@ + status_text(snap.status);
        let parts = seq![head, up, told, last];
        assert(parts.skip(1) == seq![up, told, last]);
        assert(seq![up, told, last].skip(1) == seq![told, last]);
        assert(seq![told, last].skip(1) == seq![last]);
        assert(tooltip(snap) == barred(parts));
    }
}

/// The name of each status is the one by which the health page tells it; only the unknown status has
/// a name that stands for none.
pub proof fn law_status_names_are_read_back(status: Status)
    ensures
        status_named(status_text(status)) == status,
        status == Status::Unknown ==> status_text(status) == "UNKNOWN"@,
        status == Status::Okay <==> status_text(status) == "OK"@,
        status == Status::Degraded <==> status_text(status) == "DEGRADED"@,
        status == Status::Stalled <==> status_text(status) == "STALLED"@,
{
    law_status_names(status_text(status));
    reveal_strlit("OK");
    reveal_strlit("DEGRADED");
    reveal_strlit("STALLED");
    reveal_strlit("UNKNOWN");
    assert("OK"@.len() == 2);
    assert("DEGRADED"@.len() == 8);
    assert("STALLED"@.len() == 7 && "STALLED"@[0] == 'S');
    assert("UNKNOWN"@.len() == 7 && "UNKNOWN"@[0] == 'U');
}

/// The icon shows the status, and nothing of it while the watcher starts; it has the status' colour,
/// and no two statuses share one.
pub proof fn law_icon_shows_the_status(snap: DisplaySnap, a: Status, b: Status)
    ensures
        snap.starting ==> icon_status(snap) == Status::Unknown,
        !snap.starting ==> icon_status(snap) == snap.status,
        a != b ==> colour_of(a) != colour_of(b),
        colour_of(Status::Okay) == (Rgb { r: 63, g: 185, b: 80 }),
        colour_of(Status::Degraded) == (Rgb { r: 210, g: 153, b: 34 }),
        colour_of(Status::Stalled) == (Rgb { r: 248, g: 81, b: 73 }),
        colour_of(Status::Unknown) == (Rgb { r: 139, g: 148, b: 158 }),
{
}

} // verus!
