//! The watcher's web server: which events a listener gets, and what the status pages say.

use vstd::prelude::*;
use vstd::string::*;

use crate::health::{status_named, Status};
use crate::text::{is_among, maybe_text, same_text, starts_with, texts};
use crate::text_map::{distinct_keys, lemma_map_of_key, map_of, pairs_of, TextMap};

verus! {

/// A JSON value.
#[verifier::external_type_specification]
#[verifier::external_body]
pub struct ExJsonValue(serde_json::Value);

/// Why a text is not JSON.
#[verifier::external_type_specification]
#[verifier::external_body]
pub struct ExJsonError(serde_json::Error);

/// The members of a JSON object whose values are strings; none where the value is no object.
pub uninterp spec fn string_members(value: serde_json::Value) -> Map<Seq<char>, Seq<char>>;

/// The members with string values of the JSON object that `text` holds; nothing where `text` is
/// not JSON.
pub uninterp spec fn json_members(text: Seq<char>) -> Option<Map<Seq<char>, Seq<char>>>;

/// `serde_json::from_str` into a `serde_json::Value`: whether it succeeds, and what members with
/// string values the result has, depends on the text alone. Which texts are JSON and how their
/// members are read is left unsaid.
#[verifier::external_body]
fn parse_json(text: &str) -> (r: Result<serde_json::Value, serde_json::Error>)
    ensures
        r is Ok <==> json_members(text@) is Some,
        r is Ok ==> string_members(r->Ok_0) == json_members(text@)->0,
{
    serde_json::from_str(text)
}

/// `serde_json::Value::get` with a text, and `as_str` on what it gives: the string that the object
/// holds under `key`. There is none where the value is no object, the key is missing, or what is
/// under it is no string.
#[verifier::external_body]
fn string_member(value: &serde_json::Value, key: &str) -> (r: Option<String>)
    ensures
        r is Some <==> string_members(*value).contains_key(key@),
        r is Some ==> r->0@ == string_members(*value)[key@],
{
    value.get(key).and_then(|v| v.as_str()).map(|s| s.to_owned())
}

/// Which events a listener asks for; what is left out does not matter.
#[derive(Debug)]
pub struct EventFilter {
    pub medium: Option<String>,
    pub reason: Option<String>,
    /// What the sender begins with.
    pub sender: Option<String>,
}

/// [`EventFilter`], as sequences.
#[verifier::ext_equal]
pub struct EventFilterView {
    pub medium: Option<Seq<char>>,
    pub reason: Option<Seq<char>>,
    pub sender: Option<Seq<char>>,
}

impl View for EventFilter {
    type V = EventFilterView;

    open spec fn view(&self) -> EventFilterView {
        EventFilterView {
            medium: maybe_text(self.medium),
            reason: maybe_text(self.reason),
            sender: maybe_text(self.sender),
        }
    }
}

impl Default for EventFilter {
    fn default() -> (r: Self)
        ensures
            r.medium is None,
            r.reason is None,
            r.sender is None,
    {
        EventFilter { medium: None, reason: None, sender: None }
    }
}

/// What an event says of itself, where it says it as text.
#[derive(Debug)]
pub struct EventFields {
    pub medium: Option<String>,
    pub reason: Option<String>,
    pub sender: Option<String>,
}

/// [`EventFields`], as sequences.
#[verifier::ext_equal]
pub struct EventFieldsView {
    pub medium: Option<Seq<char>>,
    pub reason: Option<Seq<char>>,
    pub sender: Option<Seq<char>>,
}

impl View for EventFields {
    type V = EventFieldsView;

    open spec fn view(&self) -> EventFieldsView {
        EventFieldsView {
            medium: maybe_text(self.medium),
            reason: maybe_text(self.reason),
            sender: maybe_text(self.sender),
        }
    }
}

/// The fields of an event, where it could be read.
pub open spec fn maybe_fields(fields: Option<EventFields>) -> Option<EventFieldsView> {
    match fields {
        Some(f) => Some(f@),
        None => None,
    }
}

/// An event with these fields is one that the filter asks for. An event that could not be read
/// passes every filter.
pub open spec fn passes(filter: EventFilterView, fields: Option<EventFieldsView>) -> bool {
    fields matches Some(f) ==> {
        &&& filter.medium is Some ==> f.medium == filter.medium
        &&& filter.reason is Some ==> f.reason == filter.reason
        &&& filter.sender matches Some(prefix) ==> f.sender is Some && prefix.is_prefix_of(
            f.sender->0,
        )
    }
}

/// The text under `key`, where there is one.
pub open spec fn member(members: Map<Seq<char>, Seq<char>>, key: Seq<char>) -> Option<Seq<char>> {
    if members.contains_key(key) {
        Some(members[key])
    } else {
        None
    }
}

/// The fields of the event with these members.
pub open spec fn fields_of(members: Option<Map<Seq<char>, Seq<char>>>) -> Option<EventFieldsView> {
    match members {
        Some(m) => Some(
            EventFieldsView {
                medium: member(m, "medium"@),
                reason: member(m, "reason"@),
                sender: member(m, "sender"@),
            },
        ),
        None => None,
    }
}

/// Tells whether `wanted`, where there is such a wish, is what `found` holds.
fn wish_met(wanted: &Option<String>, found: &Option<String>) -> (r: bool)
    ensures
        r == (wanted is Some ==> maybe_text(*found) == maybe_text(*wanted)),
{
    match wanted {
        None => true,
        Some(w) => match found {
            None => false,
            Some(f) => same_text(w.as_str(), f.as_str()),
        },
    }
}

/// Tells whether an event with these fields is one that the filter asks for.
pub fn fields_match(fields: &Option<EventFields>, filter: &EventFilter) -> (r: bool)
    ensures
        r == passes(filter@, maybe_fields(*fields)),
        fields is None ==> r,
        fields matches Some(f) ==> (r <==> {
            &&& filter.medium matches Some(wanted) ==> f.medium matches Some(found) && found@
                == wanted@
            &&& filter.reason matches Some(wanted) ==> f.reason matches Some(found) && found@
                == wanted@
            &&& filter.sender matches Some(prefix) ==> f.sender matches Some(found)
                && prefix@.is_prefix_of(found@)
        }),
{
    let f = match fields {
        None => {
            return true;
        },
        Some(f) => f,
    };
    if !wish_met(&filter.medium, &f.medium) {
        return false;
    }
    if !wish_met(&filter.reason, &f.reason) {
        return false;
    }
    match &filter.sender {
        None => true,
        Some(prefix) => match &f.sender {
            None => false,
            Some(sender) => starts_with(sender.as_str(), prefix.as_str()),
        },
    }
}

/// Tells whether the event `json_str` is one that the filter asks for. An event that is not JSON
/// passes every filter.
pub fn matches_filter(json_str: &str, filter: &EventFilter) -> (r: bool)
    ensures
        r == passes(filter@, fields_of(json_members(json_str@))),
        json_members(json_str@) is None ==> r,
        json_members(json_str@) matches Some(members) ==> (r <==> {
            &&& filter.medium matches Some(wanted) ==> members.contains_key("medium"@)
                && members["medium"@] == wanted@
            &&& filter.reason matches Some(wanted) ==> members.contains_key("reason"@)
                && members["reason"@] == wanted@
            &&& filter.sender matches Some(prefix) ==> members.contains_key("sender"@)
                && prefix@.is_prefix_of(members["sender"@])
        }),
{
    if filter.medium.is_none() && filter.reason.is_none() && filter.sender.is_none() {
        return true;
    }
    let parsed = match parse_json(json_str) {
        Ok(v) => v,
        Err(_) => {
            return true;
        },
    };
    let fields = EventFields {
        medium: string_member(&parsed, "medium"),
        reason: string_member(&parsed, "reason"),
        sender: string_member(&parsed, "sender"),
    };
    assert(Some(fields@) == fields_of(json_members(json_str@)));
    fields_match(&Some(fields), filter)
}

/// An event as it is sent to a listener.
#[derive(Debug, PartialEq, Eq)]
pub struct SseEvent {
    pub event: String,
    pub data: String,
}

/// The event that is sent to a listener for `received`, a broadcast message; nothing where messages
/// were lost, or where the filter asks for others.
pub fn sse_event(received: Option<String>, filter: &EventFilter) -> (r: Option<SseEvent>)
    ensures
        r is Some <==> received is Some && passes(
            filter@,
            fields_of(json_members(received->0@)),
        ),
        r is Some ==> r->0.event@ == "podping"@ && r->0.data == received->0,
{
    match received {
        None => None,
        Some(json_str) => if matches_filter(json_str.as_str(), filter) {
            Some(SseEvent { event: "podping".to_owned(), data: json_str })
        } else {
            None
        },
    }
}

/// What the health page is made from.
#[derive(Debug, Clone, Copy)]
pub struct HealthInputs {
    /// The time now and the times before it, in seconds.
    pub now: u64,
    pub start_time: u64,
    pub last_notification_time: u64,
    pub rebootstrap_timeout: u64,
    pub notifications_received: u64,
    pub broadcast_failures: u64,
    /// How many messages the archive holds, where there is one that can be asked.
    pub archive_messages: Option<u64>,
}

/// The health page.
#[derive(Debug, PartialEq, Eq)]
pub struct HealthResponse {
    pub status: String,
    pub uptime_seconds: u64,
    pub notifications_received: u64,
    pub broadcast_failures: u64,
    pub seconds_since_last_notification: u64,
    pub archive_messages: Option<u64>,
}

/// The seconds from `then` to `now`; none where `then` is still to come.
pub open spec fn seconds_between(then: u64, now: u64) -> u64 {
    if now >= then {
        (now - then) as u64
    } else {
        0
    }
}

/// The status on the health page: silence counts before failures.
pub open spec fn health_status(i: HealthInputs) -> Seq<char> {
    if seconds_between(i.last_notification_time, i.now) > i.rebootstrap_timeout {
        "STALLED"@
    } else if i.broadcast_failures > 0 {
        "DEGRADED"@
    } else {
        "OK"@
    }
}

/// The health page.
pub fn health_handler(inputs: HealthInputs) -> (r: HealthResponse)
    ensures
        r.status@ == health_status(inputs),
        r.status@ == "STALLED"@ <==> inputs.now > inputs.last_notification_time
            + inputs.rebootstrap_timeout,
        r.status@ == "DEGRADED"@ <==> inputs.now <= inputs.last_notification_time
            + inputs.rebootstrap_timeout && inputs.broadcast_failures > 0,
        r.status@ == "OK"@ <==> inputs.now <= inputs.last_notification_time
            + inputs.rebootstrap_timeout && inputs.broadcast_failures == 0,
        inputs.now >= inputs.start_time ==> r.uptime_seconds == inputs.now - inputs.start_time,
        inputs.now < inputs.start_time ==> r.uptime_seconds == 0,
        inputs.now >= inputs.last_notification_time ==> r.seconds_since_last_notification
            == inputs.now - inputs.last_notification_time,
        inputs.now < inputs.last_notification_time ==> r.seconds_since_last_notification == 0,
        r.uptime_seconds == seconds_between(inputs.start_time, inputs.now),
        r.notifications_received == inputs.notifications_received,
        r.broadcast_failures == inputs.broadcast_failures,
        r.seconds_since_last_notification == seconds_between(
            inputs.last_notification_time,
            inputs.now,
        ),
        r.archive_messages == inputs.archive_messages,
{
    proof {
        law_silence_counts_before_failures(inputs);
    }
    let since_last: u64 = inputs.now.saturating_sub(inputs.last_notification_time);
    let status = if since_last > inputs.rebootstrap_timeout {
        "STALLED"
    } else if inputs.broadcast_failures > 0 {
        "DEGRADED"
    } else {
        "OK"
    };
    HealthResponse {
        status: status.to_owned(),
        uptime_seconds: inputs.now.saturating_sub(inputs.start_time),
        notifications_received: inputs.notifications_received,
        broadcast_failures: inputs.broadcast_failures,
        seconds_since_last_notification: since_last,
        archive_messages: inputs.archive_messages,
    }
}

/// The tray application understands every status that the health page can show: it reads each as
/// the status of that name, and none as unknown.
pub proof fn law_health_status_is_understood(i: HealthInputs)
    ensures
        status_named(health_status(i)) == (if seconds_between(i.last_notification_time, i.now)
            > i.rebootstrap_timeout {
            Status::Stalled
        } else if i.broadcast_failures > 0 {
            Status::Degraded
        } else {
            Status::Okay
        }),
{
    reveal_strlit("OK");
    reveal_strlit("DEGRADED");
    reveal_strlit("STALLED");
    assert("OK"@.len() == 2);
    assert("DEGRADED"@.len() == 8);
    assert("STALLED"@.len() == 7);
}

/// A peer and the name it goes by.
#[derive(Debug, PartialEq, Eq)]
pub struct PeerEntry {
    pub id: String,
    pub name: Option<String>,
}

/// The page of peers.
#[derive(Debug)]
pub struct PeersResponse {
    pub peers: Vec<PeerEntry>,
    pub trusted_publishers_count: usize,
}

/// A peer, as sequences.
pub type PeerView = (Seq<char>, Option<Seq<char>>);

/// The peers, as sequences.
pub open spec fn peer_views(peers: Seq<PeerEntry>) -> Seq<PeerView> {
    peers.map_values(|p: PeerEntry| (p.id@, maybe_text(p.name)))
}

/// `name`, where it is not empty.
pub open spec fn not_empty(name: Seq<char>) -> Option<Seq<char>> {
    if name.len() == 0 {
        None
    } else {
        Some(name)
    }
}

/// The name that the peer `id` goes by.
pub open spec fn peer_name(names: Map<Seq<char>, Seq<char>>, id: Seq<char>) -> Option<Seq<char>> {
    if names.contains_key(id) {
        not_empty(names[id])
    } else {
        None
    }
}

/// The active peers, in their order.
pub open spec fn active_entries(
    active: Seq<Seq<char>>,
    names: Map<Seq<char>, Seq<char>>,
) -> Seq<PeerView> {
    active.map_values(|id: Seq<char>| (id, peer_name(names, id)))
}

/// The named peers that are not active, in the order of the names.
pub open spec fn other_entries(
    pairs: Seq<(Seq<char>, Seq<char>)>,
    active: Seq<Seq<char>>,
) -> Seq<PeerView>
    decreases pairs.len(),
{
    if pairs.len() == 0 {
        Seq::empty()
    } else {
        let before = other_entries(pairs.drop_last(), active);
        let (id, name) = pairs.last();
        if active.contains(id) {
            before
        } else {
            before.push((id, not_empty(name)))
        }
    }
}

/// The name, where it is not empty.
fn shown_name(name: &String) -> (r: Option<String>)
    ensures
        maybe_text(r) == not_empty(name@),
{
    if name.as_str().is_empty() {
        None
    } else {
        Some(name.clone())
    }
}

/// The page of peers: the active ones first, then those that only have a name. The active peers are
/// a set, so none of them is given twice; and none is listed twice.
pub fn peers_handler(active: &Vec<String>, names: &TextMap, trusted_publishers: usize) -> (r:
    PeersResponse)
    requires
        texts(active@).no_duplicates(),
    ensures
        each_once(peer_views(r.peers@)),
        peer_views(r.peers@) == active_entries(texts(active@), names@) + other_entries(
            names.pairs(),
            texts(active@),
        ),
        r.trusted_publishers_count == trusted_publishers,
{
    let mut list: Vec<PeerEntry> = Vec::new();
    let ghost ids = texts(active@);
    let ghost first = active_entries(ids, names@);
    let mut i: usize = 0;
    while i < active.len()
        invariant
            i <= active@.len(),
            ids == texts(active@),
            first == active_entries(ids, names@),
            peer_views(list@) == first.take(i as int),
        decreases active@.len() - i,
    {
        let id = &active[i];
        let name = match names.get(id.as_str()) {
            Some(n) => shown_name(n),
            None => None,
        };
        let ghost before = list@;
        list.push(PeerEntry { id: id.clone(), name });
        assert(peer_views(list@) == peer_views(before).push(first[i as int]));
        assert(first.take(i + 1) == first.take(i as int).push(first[i as int]));
        i = i + 1;
    }
    assert(first.take(i as int) == first);
    let entries = names.entries();
    let ghost pairs = names.pairs();
    let mut j: usize = 0;
    assert(pairs.take(0) == Seq::<(Seq<char>, Seq<char>)>::empty());
    assert(first + other_entries(pairs.take(0), ids) == first);
    while j < entries.len()
        invariant
            j <= entries@.len(),
            ids == texts(active@),
            pairs == pairs_of(entries@),
            peer_views(list@) == first + other_entries(pairs.take(j as int), ids),
        decreases entries@.len() - j,
    {
        let ghost upto = pairs.take(j + 1);
        let ghost before = list@;
        assert(upto.drop_last() == pairs.take(j as int));
        assert(upto.last() == pairs[j as int]);
        if !is_among(active, entries[j].0.as_str()) {
            let name = shown_name(&entries[j].1);
            list.push(PeerEntry { id: entries[j].0.clone(), name });
            let ghost entry = (pairs[j as int].0, not_empty(pairs[j as int].1));
            assert(peer_views(list@) == peer_views(before).push(entry));
            assert(first + other_entries(upto.drop_last(), ids).push(entry) == (first
                + other_entries(upto.drop_last(), ids)).push(entry));
        }
        j = j + 1;
    }
    assert(pairs.take(j as int) == pairs);
    proof {
        law_each_peer_is_listed_once(ids, pairs);
    }
    PeersResponse { peers: list, trusted_publishers_count: trusted_publishers }
}

/// `list` holds an entry for the peer `id`.
pub open spec fn lists(list: Seq<PeerView>, id: Seq<char>) -> bool {
    exists|i: int| 0 <= i < list.len() && (#[trigger] list[i]).0 == id
}

/// `pairs` holds a name for the peer `id`.
pub open spec fn has_pair(pairs: Seq<(Seq<char>, Seq<char>)>, id: Seq<char>) -> bool {
    exists|j: int| 0 <= j < pairs.len() && (#[trigger] pairs[j]).0 == id
}

/// No peer occurs twice in `list`.
pub open spec fn each_once(list: Seq<PeerView>) -> bool {
    forall|i: int, j: int|
        0 <= i < list.len() && 0 <= j < list.len() && i != j ==> (#[trigger] list[i]).0 != (
        #[trigger] list[j]).0
}

proof fn lemma_other_entries(pairs: Seq<(Seq<char>, Seq<char>)>, active: Seq<Seq<char>>)
    requires
        distinct_keys(pairs),
    ensures
        each_once(other_entries(pairs, active)),
        forall|id: Seq<char>|
            #[trigger] lists(other_entries(pairs, active), id) <==> has_pair(pairs, id)
                && !active.contains(id),
        forall|i: int|
            0 <= i < other_entries(pairs, active).len() ==> (#[trigger] other_entries(
                pairs,
                active,
            )[i]).1 == peer_name(map_of(pairs), other_entries(pairs, active)[i].0),
    decreases pairs.len(),
{
    let list = other_entries(pairs, active);
    if pairs.len() > 0 {
        let front = pairs.drop_last();
        let before = other_entries(front, active);
        let (last_id, last_name) = pairs.last();
        assert(distinct_keys(front));
        lemma_other_entries(front, active);
        assert(!has_pair(front, last_id)) by {
            if has_pair(front, last_id) {
                let j = choose|j: int| 0 <= j < front.len() && (#[trigger] front[j]).0 == last_id;
                assert(pairs[j].0 == pairs[pairs.len() - 1].0);
            }
        }
        assert(!lists(before, last_id));
        assert forall|id: Seq<char>|
            #[trigger] lists(list, id) <==> has_pair(pairs, id) && !active.contains(id) by {
            if has_pair(front, id) {
                let j = choose|j: int| 0 <= j < front.len() && (#[trigger] front[j]).0 == id;
                assert(pairs[j].0 == id);
            }
            if has_pair(pairs, id) && id != last_id {
                let j = choose|j: int| 0 <= j < pairs.len() && (#[trigger] pairs[j]).0 == id;
                assert(front[j].0 == id);
            }
            assert(has_pair(pairs, last_id)) by {
                assert(pairs[pairs.len() - 1].0 == last_id);
            }
            if lists(before, id) {
                let i = choose|i: int| 0 <= i < before.len() && (#[trigger] before[i]).0 == id;
                assert(list[i].0 == id);
            }
            if lists(list, id) && id != last_id {
                let i = choose|i: int| 0 <= i < list.len() && (#[trigger] list[i]).0 == id;
                assert(before[i].0 == id);
            }
            if !active.contains(last_id) {
                assert(list[list.len() - 1].0 == last_id);
            }
        }
        assert forall|i: int| 0 <= i < list.len() implies (#[trigger] list[i]).1 == peer_name(
            map_of(pairs),
            list[i].0,
        ) by {
            if i < before.len() {
                assert(list[i] == before[i]);
                assert(lists(before, before[i].0));
                assert(before[i].0 != last_id);
            }
        }
        assert forall|i: int, j: int|
            0 <= i < list.len() && 0 <= j < list.len() && i != j implies (#[trigger] list[i]).0 != (
        #[trigger] list[j]).0 by {
            if i < before.len() && j < before.len() {
                assert(list[i] == before[i] && list[j] == before[j]);
            } else if i < before.len() {
                assert(list[i] == before[i]);
                assert(lists(before, before[i].0));
            } else {
                assert(list[j] == before[j]);
                assert(lists(before, before[j].0));
            }
        }
    }
}

/// The page of peers lists every peer that is active or has a name, and no other; each of them once,
/// under the name it goes by. So which peers are listed, and how, does not depend on the order in
/// which peers and names are walked.
pub proof fn law_each_peer_is_listed_once(
    active: Seq<Seq<char>>,
    pairs: Seq<(Seq<char>, Seq<char>)>,
)
    requires
        active.no_duplicates(),
        distinct_keys(pairs),
    ensures
        ({
            let list = active_entries(active, map_of(pairs)) + other_entries(pairs, active);
            &&& each_once(list)
            &&& forall|id: Seq<char>|
                #[trigger] lists(list, id) <==> active.contains(id) || map_of(pairs).contains_key(
                    id,
                )
            &&& forall|i: int|
                0 <= i < list.len() ==> (#[trigger] list[i]).1 == peer_name(
                    map_of(pairs),
                    list[i].0,
                )
            &&& forall|i: int|
                0 <= i < list.len() ==> ((#[trigger] list[i]).1 is Some <==> map_of(
                    pairs,
                ).contains_key(list[i].0) && map_of(pairs)[list[i].0].len() > 0)
            &&& forall|i: int|
                0 <= i < list.len() && (#[trigger] list[i]).1 is Some ==> list[i].1->0 == map_of(
                    pairs,
                )[list[i].0]
            &&& forall|i: int| 0 <= i < active.len() ==> (#[trigger] list[i]).0 == active[i]
        }),
{
    let first = active_entries(active, map_of(pairs));
    let others = other_entries(pairs, active);
    let list = first + others;
    lemma_other_entries(pairs, active);
    assert forall|i: int, j: int|
        0 <= i < list.len() && 0 <= j < list.len() && i != j implies (#[trigger] list[i]).0 != (
    #[trigger] list[j]).0 by {
        let n = first.len() as int;
        if i < n && j < n {
            assert(list[i].0 == active[i] && list[j].0 == active[j]);
        } else if i >= n && j >= n {
            assert(list[i] == others[i - n] && list[j] == others[j - n]);
        } else if i < n {
            assert(list[i].0 == active[i] && active.contains(active[i]));
            assert(list[j] == others[j - n]);
            assert(lists(others, others[j - n].0));
        } else {
            assert(list[j].0 == active[j] && active.contains(active[j]));
            assert(list[i] == others[i - n]);
            assert(lists(others, others[i - n].0));
        }
    }
    assert forall|id: Seq<char>|
        #[trigger] lists(list, id) <==> active.contains(id) || map_of(pairs).contains_key(id) by {
        lemma_map_of_key(pairs, id);
        let n = first.len() as int;
        if lists(list, id) {
            let i = choose|i: int| 0 <= i < list.len() && (#[trigger] list[i]).0 == id;
            if i < n {
                assert(active[i] == id);
            } else {
                assert(others[i - n].0 == id);
                assert(lists(others, id));
            }
        }
        if active.contains(id) {
            let i = choose|i: int| 0 <= i < active.len() && active[i] == id;
            assert(list[i].0 == id);
        } else if map_of(pairs).contains_key(id) {
            assert(has_pair(pairs, id));
            assert(lists(others, id));
            let i = choose|i: int| 0 <= i < others.len() && (#[trigger] others[i]).0 == id;
            assert(list[n + i].0 == id);
        }
    }
    assert forall|i: int| 0 <= i < list.len() implies (#[trigger] list[i]).1 == peer_name(
        map_of(pairs),
        list[i].0,
    ) by {
        let n = first.len() as int;
        if i < n {
            assert(list[i] == first[i]);
        } else {
            assert(list[i] == others[i - n]);
        }
    }
}

/// A listener that asks for nothing gets every event, and so does every listener where the event is
/// not JSON.
pub proof fn law_unfiltered_events_pass(filter: EventFilterView, fields: Option<EventFieldsView>)
    requires
        fields is None || (filter.medium is None && filter.reason is None && filter.sender is None),
    ensures
        passes(filter, fields),
{
}

/// `strict` asks for all that `loose` asks for.
pub open spec fn asks_for_more(strict: EventFilterView, loose: EventFilterView) -> bool {
    &&& loose.medium is Some ==> strict.medium == loose.medium
    &&& loose.reason is Some ==> strict.reason == loose.reason
    &&& loose.sender matches Some(short) ==> strict.sender is Some && short.is_prefix_of(
        strict.sender->0,
    )
}

/// A listener that asks for more gets no event that one who asks for less does not get.
pub proof fn law_asking_for_more_gets_less(
    strict: EventFilterView,
    loose: EventFilterView,
    fields: Option<EventFieldsView>,
)
    requires
        asks_for_more(strict, loose),
        passes(strict, fields),
    ensures
        passes(loose, fields),
{
    if fields is Some && loose.sender is Some {
        let short = loose.sender->0;
        let long = strict.sender->0;
        let sender = fields->0.sender->0;
        assert(short == sender.take(short.len() as int)) by {
            assert(long == sender.take(long.len() as int));
            assert(short == long.take(short.len() as int));
        }
    }
}

/// What the node says of itself.
#[derive(Debug, PartialEq, Eq)]
pub struct InfoResponse {
    pub node_id: String,
    pub pubkey: String,
    pub version: String,
    pub friendly_name: Option<String>,
}

/// The page on the node.
pub fn info_handler(
    node_id: &String,
    pubkey: &String,
    version: &String,
    friendly_name: &Option<String>,
) -> (r: InfoResponse)
    ensures
        r.node_id == *node_id,
        r.pubkey == *pubkey,
        r.version == *version,
        r.friendly_name == *friendly_name,
{
    InfoResponse {
        node_id: node_id.clone(),
        pubkey: pubkey.clone(),
        version: version.clone(),
        friendly_name: match friendly_name {
            Some(name) => Some(name.clone()),
            None => None,
        },
    }
}

/// Silence counts before failures: the watcher is stalled once the last notification lies back more
/// than the time that it is given, else degraded where broadcasts have failed, else well; and more
/// time never makes a stalled watcher well.
pub proof fn law_silence_counts_before_failures(i: HealthInputs)
    ensures
        health_status(i) == "STALLED"@ <==> i.now > i.last_notification_time
            + i.rebootstrap_timeout,
        health_status(i) == "DEGRADED"@ <==> i.now <= i.last_notification_time
            + i.rebootstrap_timeout && i.broadcast_failures > 0,
        health_status(i) == "OK"@ <==> i.now <= i.last_notification_time + i.rebootstrap_timeout
            && i.broadcast_failures == 0,
        forall|later: u64|
            later >= i.now && health_status(i) == "STALLED"@ ==> #[trigger] health_status(
                HealthInputs { now: later, ..i },
            ) == "STALLED"@,
{
    reveal_strlit("OK");
    reveal_strlit("DEGRADED");
    reveal_strlit("STALLED");
    assert("OK"@.len() == 2);
    assert("DEGRADED"@.len() == 8);
    assert("STALLED"@.len() == 7);
}

/// An event that can be read and passes has what was asked for: that very medium, that very reason,
/// and a sender that begins as asked.
pub proof fn law_passing_event_has_what_was_asked(
    filter: EventFilterView,
    fields: EventFieldsView,
)
    requires
        passes(filter, Some(fields)),
    ensures
        filter.medium matches Some(wanted) ==> fields.medium == Some(wanted),
        filter.reason matches Some(wanted) ==> fields.reason == Some(wanted),
        filter.sender matches Some(prefix) ==> fields.sender matches Some(sender) && sender.len()
            >= prefix.len() && sender.take(prefix.len() as int) == prefix,
{
}

/// An event that has what was asked for passes, whatever else it says.
pub proof fn law_event_with_what_was_asked_passes(
    filter: EventFilterView,
    fields: EventFieldsView,
    tail: Seq<char>,
)
    requires
        filter.medium is None || fields.medium == filter.medium,
        filter.reason is None || fields.reason == filter.reason,
        filter.sender is None || fields.sender == Some(filter.sender->0 + tail),
    ensures
        passes(filter, Some(fields)),
{
    if filter.sender is Some {
        let prefix = filter.sender->0;
        assert((prefix + tail).take(prefix.len() as int) == prefix);
    }
}

/// No event that can be read passes two filters that ask for different media or reasons, or for
/// senders of which neither begins with the other.
pub proof fn law_no_event_passes_opposite_filters(
    a: EventFilterView,
    b: EventFilterView,
    fields: EventFieldsView,
)
    requires
        passes(a, Some(fields)),
        passes(b, Some(fields)),
    ensures
        a.medium is Some && b.medium is Some ==> a.medium == b.medium,
        a.reason is Some && b.reason is Some ==> a.reason == b.reason,
        a.sender is Some && b.sender is Some ==> a.sender->0.is_prefix_of(b.sender->0)
            || b.sender->0.is_prefix_of(a.sender->0),
{
    if a.sender is Some && b.sender is Some {
        let x = a.sender->0;
        let y = b.sender->0;
        let sender = fields.sender->0;
        assert(x == sender.take(x.len() as int));
        assert(y == sender.take(y.len() as int));
        if x.len() <= y.len() {
            assert(y.take(x.len() as int) == x);
        } else {
            assert(x.take(y.len() as int) == y);
        }
    }
}

/// Each wish is a wish of its own: an event passes exactly if it passes the filters that ask for one
/// thing each.
pub proof fn law_wishes_add_up(filter: EventFilterView, fields: Option<EventFieldsView>)
    ensures
        passes(filter, fields) <==> {
            &&& passes(EventFilterView { medium: filter.medium, reason: None, sender: None }, fields)
            &&& passes(EventFilterView { medium: None, reason: filter.reason, sender: None }, fields)
            &&& passes(EventFilterView { medium: None, reason: None, sender: filter.sender }, fields)
        },
{
}

/// The fields of an event are its members of those names, and no others matter.
pub proof fn law_fields_are_the_members_of_their_names(members: Map<Seq<char>, Seq<char>>)
    ensures
        fields_of(Some(members)) matches Some(f) && {
            &&& f.medium is Some <==> members.contains_key("medium"@)
            &&& f.medium is Some ==> f.medium->0 == members["medium"@]
            &&& f.reason is Some <==> members.contains_key("reason"@)
            &&& f.reason is Some ==> f.reason->0 == members["reason"@]
            &&& f.sender is Some <==> members.contains_key("sender"@)
            &&& f.sender is Some ==> f.sender->0 == members["sender"@]
        },
        fields_of(None) is None,
{
}

} // verus!
