//! The watcher's health as the tray application sees it.

use vstd::prelude::*;
use vstd::string::*;

use crate::number::{decimal, decimal_text};
use crate::text::same_text;

verus! {

#[derive(Debug, Clone, Copy, PartialEq, Eq, Structural)]
pub enum Status {
    Unknown,
    Okay,
    Degraded,
    Stalled,
}

/// What one look at the watcher's health showed.
#[derive(Debug, Clone, Copy, PartialEq, Eq, Structural)]
pub struct HealthSnapshot {
    pub status: Status,
    pub uptime_seconds: u64,
    pub notifications_received: u64,
    pub seconds_since_last_notification: u64,
    pub reachable: bool,
}

/// The snapshot of a watcher that cannot be reached.
pub open spec fn unreachable_snapshot() -> HealthSnapshot {
    HealthSnapshot {
        status: Status::Unknown,
        uptime_seconds: 0,
        notifications_received: 0,
        seconds_since_last_notification: 0,
        reachable: false,
    }
}

impl Default for HealthSnapshot {
    fn default() -> (r: Self)
        ensures
            r == unreachable_snapshot(),
    {
        HealthSnapshot {
            status: Status::Unknown,
            uptime_seconds: 0,
            notifications_received: 0,
            seconds_since_last_notification: 0,
            reachable: false,
        }
    }
}

/// The latest snapshot.
#[derive(Debug)]
pub struct HealthState {
    inner: HealthSnapshot,
}

impl View for HealthState {
    type V = HealthSnapshot;

    closed spec fn view(&self) -> HealthSnapshot {
        self.inner
    }
}

impl Default for HealthState {
    fn default() -> (r: Self)
        ensures
            r@ == unreachable_snapshot(),
    {
        HealthState { inner: HealthSnapshot::default() }
    }
}

impl HealthState {
    /// The latest snapshot.
    pub fn get(&self) -> (r: HealthSnapshot)
        ensures
            r == self@,
    {
        self.inner
    }

    /// Replaces the latest snapshot.
    pub fn set(&mut self, snap: HealthSnapshot)
        ensures
            final(self)@ == snap,
    {
        self.inner = snap;
    }
}

/// The status that `s` names.
pub open spec fn status_named(s: Seq<char>) -> Status {
    if s == "OK"@ {
        Status::Okay
    } else if s == "DEGRADED"@ {
        Status::Degraded
    } else if s == "STALLED"@ {
        Status::Stalled
    } else {
        Status::Unknown
    }
}

/// The status that `s` names; unknown for any other text.
pub fn parse_status(s: &str) -> (r: Status)
    ensures
        r == status_named(s@),
        r == Status::Okay <==> s@ == "OK"@,
        r == Status::Degraded <==> s@ == "DEGRADED"@,
        r == Status::Stalled <==> s@ == "STALLED"@,
{
    proof {
        law_status_names(s@);
    }
    if same_text(s, "OK") {
        Status::Okay
    } else if same_text(s, "DEGRADED") {
        Status::Degraded
    } else if same_text(s, "STALLED") {
        Status::Stalled
    } else {
        Status::Unknown
    }
}

/// The watcher's answer to a health request, decoded; what it does not say is empty or zero.
#[derive(Debug, PartialEq, Eq)]
pub struct RawHealth {
    pub status: String,
    pub uptime_seconds: u64,
    pub notifications_received: u64,
    pub seconds_since_last_notification: u64,
}

/// `s` as `{:?}` writes it.
pub uninterp spec fn debug_text(s: Seq<char>) -> Seq<char>;

/// `format!` with `{:?}` on a text: quoted and escaped, in a way that depends on the text alone.
/// Which characters are escaped is left unsaid.
#[verifier::external_body]
fn quoted(s: &str) -> (r: String)
    ensures
        r@ == debug_text(s@),
{
    format!("{:?}", s)
}

/// How many characters of a body that cannot be decoded are quoted.
pub const QUOTED_CHARS: usize = 80;

/// The first characters of a body that cannot be decoded.
pub open spec fn body_start(body: Seq<char>) -> Seq<char> {
    if body.len() <= 80 {
        body
    } else {
        body.take(80)
    }
}

/// Why `body` is no answer to a health request: `error`, and `shown`, the quoted start of the
/// body.
pub open spec fn undecodable(error: Seq<char>, shown: Seq<char>) -> Seq<char> {
    "decode health JSON: "@ + error + " (body starts "@ + shown + ")"@
}

/// The first characters of a body that cannot be decoded.
pub fn start_of_body(body: &str) -> (r: String)
    ensures
        r@ == body_start(body@),
        r@.is_prefix_of(body@),
        body@.len() <= 80 ==> r@ == body@,
        body@.len() > 80 ==> r@.len() == 80,
{
    if body.unicode_len() <= QUOTED_CHARS {
        body.to_owned()
    } else {
        body.substring_char(0, QUOTED_CHARS).to_owned()
    }
}

/// Why a body is no answer to a health request: `error`, and `shown`, the quoted start of the
/// body.
pub fn decode_failure(error: &str, shown: &str) -> (r: String)
    ensures
        r@ == undecodable(error@, shown@),
{
    "decode health JSON: ".to_owned().concat(error).concat(" (body starts ").concat(shown).concat(
        ")",
    )
}

/// The snapshot for a decoded answer.
pub open spec fn snapshot_of(raw: RawHealth) -> HealthSnapshot {
    HealthSnapshot {
        status: status_named(raw.status@),
        uptime_seconds: raw.uptime_seconds,
        notifications_received: raw.notifications_received,
        seconds_since_last_notification: raw.seconds_since_last_notification,
        reachable: true,
    }
}

/// The snapshot for the answer `body`, where `decoded` is what came of decoding it.
pub fn fetch_health(body: &str, decoded: Result<RawHealth, String>) -> (r: Result<
    HealthSnapshot,
    String,
>)
    ensures
        decoded is Ok ==> r == Ok::<HealthSnapshot, String>(snapshot_of(decoded->Ok_0)),
        decoded matches Ok(raw) ==> r matches Ok(snap) && {
            &&& snap.reachable
            &&& snap.status == Status::Okay <==> raw.status@ == "OK"@
            &&& snap.status == Status::Degraded <==> raw.status@ == "DEGRADED"@
            &&& snap.status == Status::Stalled <==> raw.status@ == "STALLED"@
            &&& snap.uptime_seconds == raw.uptime_seconds
            &&& snap.notifications_received == raw.notifications_received
            &&& snap.seconds_since_last_notification == raw.seconds_since_last_notification
        },
        decoded is Err ==> r is Err && r->Err_0@ == undecodable(
            decoded->Err_0@,
            debug_text(body_start(body@)),
        ),
        decoded matches Err(e) ==> r matches Err(said) && said@ == "decode health JSON: "@ + e@
            + " (body starts "@ + debug_text(
            if body@.len() <= 80 {
                body@
            } else {
                body@.take(80)
            },
        ) + ")"@,
{
    match decoded {
        Ok(raw) => Ok(
            HealthSnapshot {
                status: parse_status(raw.status.as_str()),
                uptime_seconds: raw.uptime_seconds,
                notifications_received: raw.notifications_received,
                seconds_since_last_notification: raw.seconds_since_last_notification,
                reachable: true,
            },
        ),
        Err(e) => {
            let shown = quoted(start_of_body(body).as_str());
            Err(decode_failure(e.as_str(), shown.as_str()))
        },
    }
}

/// What one poll came to.
pub enum PollOutcome {
    /// The web server is switched off, so there is nothing to poll.
    Disabled,
    /// The watcher answered.
    Up(HealthSnapshot),
    /// The watcher on this port gave no answer, for this reason.
    Down(u16, String),
}

/// [`PollOutcome`], as sequences.
pub enum PollOutcomeView {
    Disabled,
    Up(HealthSnapshot),
    Down(u16, Seq<char>),
}

impl View for PollOutcome {
    type V = PollOutcomeView;

    open spec fn view(&self) -> PollOutcomeView {
        match self {
            PollOutcome::Disabled => PollOutcomeView::Disabled,
            PollOutcome::Up(s) => PollOutcomeView::Up(*s),
            PollOutcome::Down(port, e) => PollOutcomeView::Down(*port, e@),
        }
    }
}

/// What the poller remembers between polls.
#[derive(Debug, Clone, Copy, PartialEq, Eq, Structural)]
pub struct Poller {
    pub logged_failure: bool,
    pub consecutive_failures: u32,
}

/// The seconds between two polls.
pub const POLL_SECONDS: u64 = 3;

/// The failures in a row at which the log is told: the web server may still be starting.
pub const FAILURES_TO_LOG: u32 = 3;

/// What the log is told when the watcher answers again.
pub open spec fn up_message() -> Seq<char> {
    "[TRAY] watcher health endpoint is up"@
}

/// What the log is told when the watcher keeps silent.
pub open spec fn down_message(port: u16, error: Seq<char>) -> Seq<char> {
    "[TRAY] health poll failed (http://127.0.0.1:"@ + decimal(port as nat) + "/api/health): "@
        + error
}

/// The poller behind `outcome`.
pub open spec fn poller_after(p: Poller, outcome: PollOutcomeView) -> Poller {
    match outcome {
        PollOutcomeView::Disabled => p,
        PollOutcomeView::Up(_) => Poller { logged_failure: false, consecutive_failures: 0 },
        PollOutcomeView::Down(..) => {
            let failures = if p.consecutive_failures == u32::MAX {
                u32::MAX
            } else {
                (p.consecutive_failures + 1) as u32
            };
            Poller {
                logged_failure: p.logged_failure || failures == 3,
                consecutive_failures: failures,
            }
        },
    }
}

/// What the log is told on `outcome`.
pub open spec fn poll_message(p: Poller, outcome: PollOutcomeView) -> Option<Seq<char>> {
    match outcome {
        PollOutcomeView::Disabled => None,
        PollOutcomeView::Up(_) => if p.logged_failure {
            Some(up_message())
        } else {
            None
        },
        PollOutcomeView::Down(port, e) => if !p.logged_failure && p.consecutive_failures == 2 {
            Some(down_message(port, e))
        } else {
            None
        },
    }
}

/// The snapshot that `outcome` gives.
pub open spec fn polled_snapshot(outcome: PollOutcomeView) -> HealthSnapshot {
    match outcome {
        PollOutcomeView::Up(s) => s,
        _ => unreachable_snapshot(),
    }
}

impl Poller {
    /// A poller before its first poll.
    pub fn new() -> (r: Self)
        ensures
            r == (Poller { logged_failure: false, consecutive_failures: 0 }),
    {
        Poller { logged_failure: false, consecutive_failures: 0 }
    }

    /// Takes in what a poll came to. Returns the snapshot to show and, where there is something
    /// to tell, a line for the log.
    pub fn observe(&mut self, outcome: PollOutcome) -> (r: (HealthSnapshot, Option<String>))
        ensures
            *final(self) == poller_after(*old(self), outcome@),
            r.0 == polled_snapshot(outcome@),
            outcome matches PollOutcome::Up(snap) ==> r.0 == snap,
            !(outcome is Up) ==> !r.0.reachable,
            outcome is Disabled ==> r.1 is None && *final(self) == *old(self),
            outcome is Up ==> (r.1 is Some <==> old(self).logged_failure),
            outcome is Up ==> !final(self).logged_failure && final(self).consecutive_failures == 0,
            outcome is Down ==> (r.1 is Some <==> !old(self).logged_failure
                && final(self).logged_failure),
            r.1 is Some <==> poll_message(*old(self), outcome@) is Some,
            r.1 is Some ==> r.1->0@ == poll_message(*old(self), outcome@)->0,
    {
        match outcome {
            PollOutcome::Disabled => (HealthSnapshot::default(), None),
            PollOutcome::Up(snap) => {
                let mut message: Option<String> = None;
                if self.logged_failure {
                    message = Some("[TRAY] watcher health endpoint is up".to_owned());
                    self.logged_failure = false;
                }
                self.consecutive_failures = 0;
                (snap, message)
            },
            PollOutcome::Down(port, e) => {
                self.consecutive_failures = self.consecutive_failures.saturating_add(1);
                let mut message: Option<String> = None;
                if self.consecutive_failures == FAILURES_TO_LOG && !self.logged_failure {
                    message = Some(
                        "[TRAY] health poll failed (http://127.0.0.1:".to_owned().concat(
                            decimal_text(port as u64).as_str(),
                        ).concat("/api/health): ").concat(e.as_str()),
                    );
                    self.logged_failure = true;
                }
                (HealthSnapshot::default(), message)
            },
        }
    }
}

/// A poller before its first poll, and behind each answer.
pub open spec fn fresh_poller() -> Poller {
    Poller { logged_failure: false, consecutive_failures: 0 }
}

/// The poller behind all of `outcomes`.
pub open spec fn poller_behind(p: Poller, outcomes: Seq<PollOutcomeView>) -> Poller
    decreases outcomes.len(),
{
    if outcomes.len() == 0 {
        p
    } else {
        poller_after(poller_behind(p, outcomes.drop_last()), outcomes.last())
    }
}

/// What the log is told over `outcomes`: `true` for each line on a silent watcher, `false` for
/// each on one that answers again.
pub open spec fn told(p: Poller, outcomes: Seq<PollOutcomeView>) -> Seq<bool>
    decreases outcomes.len(),
{
    if outcomes.len() == 0 {
        Seq::empty()
    } else {
        let before = told(p, outcomes.drop_last());
        if poll_message(poller_behind(p, outcomes.drop_last()), outcomes.last()) is Some {
            before.push(outcomes.last() is Down)
        } else {
            before
        }
    }
}

/// The log is told in turns: first that the watcher keeps silent, then that it answers again, and
/// so on, whatever the polls come to; and the poller knows which of the two is due.
pub proof fn law_log_is_told_in_turns(outcomes: Seq<PollOutcomeView>)
    ensures
        forall|i: int|
            0 <= i < told(fresh_poller(), outcomes).len() ==> (#[trigger] told(
                fresh_poller(),
                outcomes,
            )[i] <==> i % 2 == 0),
        poller_behind(fresh_poller(), outcomes).logged_failure <==> told(
            fresh_poller(),
            outcomes,
        ).len() % 2 == 1,
    decreases outcomes.len(),
{
    if outcomes.len() > 0 {
        law_log_is_told_in_turns(outcomes.drop_last());
    }
}

/// None of `outcomes` is an answer.
pub open spec fn no_answer(outcomes: Seq<PollOutcomeView>) -> bool {
    forall|i: int| 0 <= i < outcomes.len() ==> !((#[trigger] outcomes[i]) is Up)
}

/// How many of `outcomes` are failures.
pub open spec fn failure_count(outcomes: Seq<PollOutcomeView>) -> nat
    decreases outcomes.len(),
{
    if outcomes.len() == 0 {
        0
    } else {
        failure_count(outcomes.drop_last()) + if outcomes.last() is Down {
            1nat
        } else {
            0nat
        }
    }
}

/// Of the failures behind an answer, or behind the start, the third is told and no other: behind
/// `outcomes`, the failure that comes next is told exactly if it is the third. Polls while the web
/// server is switched off do not count, wherever they lie among the failures.
pub proof fn law_third_failure_is_told(outcomes: Seq<PollOutcomeView>, port: u16, error: Seq<char>)
    requires
        no_answer(outcomes),
    ensures
        poll_message(
            poller_behind(fresh_poller(), outcomes),
            PollOutcomeView::Down(port, error),
        ) == (if failure_count(outcomes) == 2 {
            Some(
                "[TRAY] health poll failed (http://127.0.0.1:"@ + decimal(port as nat)
                    + "/api/health): "@ + error,
            )
        } else {
            None
        }),
{
    lemma_failures_counted(outcomes);
}

proof fn lemma_failures_counted(outcomes: Seq<PollOutcomeView>)
    requires
        no_answer(outcomes),
    ensures
        ({
            let p = poller_behind(fresh_poller(), outcomes);
            let failures = failure_count(outcomes);
            &&& p.consecutive_failures == if failures < u32::MAX {
                failures as int
            } else {
                u32::MAX as int
            }
            &&& p.logged_failure <==> failures >= 3
        }),
    decreases outcomes.len(),
{
    if outcomes.len() > 0 {
        let front = outcomes.drop_last();
        assert forall|i: int| 0 <= i < front.len() implies !((#[trigger] front[i]) is Up) by {
            assert(!(outcomes[i] is Up));
        }
        assert(!(outcomes[outcomes.len() - 1] is Up));
        lemma_failures_counted(front);
    }
}

/// An answer makes the poller forget: behind it the poller is as before its first poll, and what it
/// tells from there on does not depend on what came before.
pub proof fn law_answer_starts_afresh(p: Poller, snapshot: HealthSnapshot)
    ensures
        poller_after(p, PollOutcomeView::Up(snapshot)) == fresh_poller(),
{
}

/// While the web server is switched off the poller forgets nothing and tells nothing.
pub proof fn law_switched_off_changes_nothing(p: Poller)
    ensures
        poller_after(p, PollOutcomeView::Disabled) == p,
        poll_message(p, PollOutcomeView::Disabled) is None,
{
}

/// The three names stand for three statuses, and every other text for none of them.
pub proof fn law_status_names(s: Seq<char>)
    ensures
        status_named(s) == Status::Okay <==> s == "OK"@,
        status_named(s) == Status::Degraded <==> s == "DEGRADED"@,
        status_named(s) == Status::Stalled <==> s == "STALLED"@,
{
    reveal_strlit("OK");
    reveal_strlit("DEGRADED");
    reveal_strlit("STALLED");
    assert("OK"@.len() == 2);
    assert("DEGRADED"@.len() == 8);
    assert("STALLED"@.len() == 7);
}

/// What is shown of a poll is the answer itself, and nothing of the watcher where there was none;
/// what was shown or told before does not matter.
pub proof fn law_poll_shows_the_answer(outcome: PollOutcomeView)
    ensures
        outcome matches PollOutcomeView::Up(snap) ==> polled_snapshot(outcome) == snap,
        !(outcome is Up) ==> polled_snapshot(outcome) == (HealthSnapshot {
            status: Status::Unknown,
            uptime_seconds: 0,
            notifications_received: 0,
            seconds_since_last_notification: 0,
            reachable: false,
        }),
{
}

/// An answer is told exactly where the silence before it was told, that is behind three failures at
/// least since the last answer.
pub proof fn law_answer_is_told_behind_three_failures(
    outcomes: Seq<PollOutcomeView>,
    snapshot: HealthSnapshot,
)
    requires
        no_answer(outcomes),
    ensures
        poll_message(poller_behind(fresh_poller(), outcomes), PollOutcomeView::Up(snapshot)) == (
        if failure_count(outcomes) >= 3 {
            Some("[TRAY] watcher health endpoint is up"@)
        } else {
            None
        }),
{
    lemma_failures_counted(outcomes);
}

} // verus!
