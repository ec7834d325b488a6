//! The push channel: where to open it, what a state change notification
//! holds, and when to reconnect.
use vstd::prelude::*;

use crate::client::JmapClient;
use crate::decode::{map_of, text_item, text_pairs_view};
use crate::http::{HttpMethod, HttpRequest, headers_view, two_headers};
use crate::text::{replace, replace_all};
use crate::value::{Json, Value, entry_views, lemma_entry_views};

verus! {

/// The delay before reconnecting, in milliseconds.
pub const RECONNECT_DELAY_MS: u32 = 3000;

/// The URL of the push channel: the template with its placeholders filled in.
pub open spec fn expanded_url(template: Seq<char>, types: Seq<char>, closeafter: Seq<char>, ping: Seq<char>) -> Seq<char> {
    replace(replace(replace(template, "{types}"@, types), "{closeafter}"@, closeafter), "{ping}"@, ping)
}

/// Fills in the placeholders `{types}`, `{closeafter}` and `{ping}` of an
/// event source URL template.
pub fn expand_event_source_url(template: &str, types: &str, closeafter: &str, ping: &str) -> (r: String)
    ensures
        r@ == expanded_url(template@, types@, closeafter@, ping@),
{
    proof {
        reveal_strlit("{types}");
        reveal_strlit("{closeafter}");
        reveal_strlit("{ping}");
    }
    let a = replace_all(template, "{types}", types);
    let b = replace_all(a.as_str(), "{closeafter}", closeafter);
    replace_all(b.as_str(), "{ping}", ping)
}

impl JmapClient {
    /// The request that opens the push channel, subscribed to every type of
    /// change, never closed by the server, with a keep-alive every 30 seconds;
    /// nothing when the server has no push channel.
    pub fn event_source_request(&self) -> (r: Option<HttpRequest>)
        ensures
            self.session@.event_source_url is None ==> r is None,
            self.session@.event_source_url matches Some(t) ==> (r matches Some(req) && req.method
                == HttpMethod::Get && req.url@ == expanded_url(t, "*"@, "no"@, "30"@)
                && headers_view(req.headers@) == seq![
                ("Authorization"@, self.auth_header@),
                ("Accept"@, "text/event-stream"@),
            ] && req.body is None),
    {
        match &self.session.event_source_url {
            Some(t) => {
                let url = expand_event_source_url(t.as_str(), "*", "no", "30");
                let headers = two_headers(
                    "Authorization",
                    self.auth_header.clone(),
                    "Accept",
                    "text/event-stream",
                );
                Some(HttpRequest { method: HttpMethod::Get, url, headers, body: None })
            },
            None => None,
        }
    }
}

/// A state change notification: for each account, the types of data that
/// changed and their new state tokens.
#[derive(Debug, Clone, PartialEq)]
pub struct StateChange {
    pub changed: Vec<(String, Vec<(String, String)>)>,
}

/// The model of a notification.
pub open spec fn changed_view(c: Seq<(String, Vec<(String, String)>)>) -> Seq<(Seq<char>, Seq<(Seq<char>, Seq<char>)>)> {
    c.map_values(|p: (String, Vec<(String, String)>)| (p.0@, text_pairs_view(p.1@)))
}

/// The notification that an object encodes, when its `changed` entry maps
/// accounts to objects of state tokens.
pub open spec fn state_change_of(j: Json) -> Option<Seq<(Seq<char>, Seq<(Seq<char>, Seq<char>)>)>> {
    if j is Object {
        map_of(j.get("changed"@), |x: Json| map_of(Some(x), |y: Json| text_item(y)))
    } else {
        None
    }
}

/// The entries of an object of texts.
pub fn text_entries(v: &Value) -> (r: Option<Vec<(String, String)>>)
    ensures
        match r {
            Some(l) => map_of(Some(v@), |j: Json| text_item(j)) == Some(text_pairs_view(l@)),
            None => map_of(Some(v@), |j: Json| text_item(j)) is None,
        },
{
    let e = match v {
        Value::Object(e) => e,
        _ => return None,
    };
    proof {
        lemma_entry_views(e@);
    }
    let ghost m = entry_views(e@);
    let mut out: Vec<(String, String)> = Vec::new();
    let mut i: usize = 0;
    while i < e.len()
        invariant
            v@ == Json::Object(m),
            m.len() == e@.len(),
            forall|j: int| 0 <= j < e@.len() ==> #[trigger] m[j] == (e@[j].0@, e@[j].1@),
            i <= e.len(),
            out@.len() == i,
            forall|j: int| 0 <= j < i ==> (#[trigger] text_item(m[j].1)) is Some,
            forall|j: int|
                0 <= j < i ==> #[trigger] out@[j].0@ == m[j].0 && Some(out@[j].1@) == text_item(
                    m[j].1,
                ),
        decreases e.len() - i,
    {
        assert(m[i as int] == (e@[i as int].0@, e@[i as int].1@));
        match e[i].1.as_str() {
            Some(s) => out.push((e[i].0.clone(), s.clone())),
            None => {
                assert(text_item(m[i as int].1) is None);
                return None;
            },
        }
        i += 1;
    }
    proof {
        assert(text_pairs_view(out@) =~= m.map_values(
            |p: (Seq<char>, Json)| (p.0, text_item(p.1)->0),
        ));
    }
    Some(out)
}

impl StateChange {
    /// The notification that `v` encodes, when it is one.
    pub fn from_value(v: &Value) -> (r: Option<StateChange>)
        ensures
            match r {
                Some(c) => state_change_of(v@) == Some(changed_view(c.changed@)),
                None => state_change_of(v@) is None,
            },
    {
        if !matches!(v, Value::Object(_)) {
            return None;
        }
        let e = match v.get("changed") {
            Some(Value::Object(e)) => e,
            _ => return None,
        };
        proof {
            lemma_entry_views(e@);
        }
        let ghost m = entry_views(e@);
        let mut out: Vec<(String, Vec<(String, String)>)> = Vec::new();
        let mut i: usize = 0;
        while i < e.len()
            invariant
                v@.get("changed"@) == Some(Json::Object(m)),
                v@ is Object,
                m.len() == e@.len(),
                forall|j: int| 0 <= j < e@.len() ==> #[trigger] m[j] == (e@[j].0@, e@[j].1@),
                i <= e.len(),
                out@.len() == i,
                forall|j: int|
                    0 <= j < i ==> map_of(Some(#[trigger] m[j].1), |y: Json| text_item(y)) is Some,
                forall|j: int|
                    0 <= j < i ==> #[trigger] out@[j].0@ == m[j].0 && Some(text_pairs_view(out@[j].1@))
                        == map_of(Some(m[j].1), |y: Json| text_item(y)),
            decreases e.len() - i,
        {
            assert(m[i as int] == (e@[i as int].0@, e@[i as int].1@));
            match text_entries(&e[i].1) {
                Some(t) => out.push((e[i].0.clone(), t)),
                None => {
                    assert(map_of(Some(m[i as int].1), |y: Json| text_item(y)) is None);
                    return None;
                },
            }
            i += 1;
        }
        proof {
            assert(changed_view(out@) =~= m.map_values(
                |p: (Seq<char>, Json)| (p.0, map_of(Some(p.1), |y: Json| text_item(y))->0),
            ));
        }
        Some(StateChange { changed: out })
    }
}

/// Where the push channel stands.
#[derive(Debug, Clone, Copy, PartialEq, Eq, Structural)]
pub enum PushPhase {
    /// Not connected, and not trying to: before the first connection and after logout.
    Disconnected,
    /// Waiting for the channel to open.
    Connecting,
    /// Reading events.
    Streaming,
    /// Waiting out the delay before connecting again.
    Reconnecting,
}

/// What happened to the push channel.
#[derive(Debug, Clone, Copy, PartialEq, Eq, Structural)]
pub enum PushEvent {
    /// The user is logged in and the channel should run.
    Start,
    /// The channel opened with a success status.
    Opened,
    /// The channel could not be opened, a read failed, or the stream ended.
    Failed,
    /// The delay before reconnecting is over.
    DelayElapsed,
    /// The user logged out.
    Logout,
}

/// What to do next.
#[derive(Debug, Clone, Copy, PartialEq, Eq, Structural)]
pub enum PushAction {
    Nothing,
    /// Open the channel.
    Open,
    /// Wait this many milliseconds, then report that the delay is over.
    Wait(u32),
    /// Cancel the request in flight at once, without waiting on the server.
    Abort,
}

/// The next phase and action. Every failure is handled alike: wait the
/// fixed delay, then connect again, with no limit on attempts and no growth
/// of the delay. Logging out stops everything, and a delay that ends after
/// logout leads nowhere.
pub open spec fn step(phase: PushPhase, event: PushEvent) -> (PushPhase, PushAction) {
    match (phase, event) {
        (PushPhase::Disconnected, PushEvent::Start) => (PushPhase::Connecting, PushAction::Open),
        (PushPhase::Connecting, PushEvent::Opened) => (PushPhase::Streaming, PushAction::Nothing),
        (PushPhase::Connecting, PushEvent::Failed) => (
            PushPhase::Reconnecting,
            PushAction::Wait(RECONNECT_DELAY_MS),
        ),
        (PushPhase::Streaming, PushEvent::Failed) => (
            PushPhase::Reconnecting,
            PushAction::Wait(RECONNECT_DELAY_MS),
        ),
        (PushPhase::Reconnecting, PushEvent::DelayElapsed) => (
            PushPhase::Connecting,
            PushAction::Open,
        ),
        (PushPhase::Connecting, PushEvent::Logout) => (PushPhase::Disconnected, PushAction::Abort),
        (PushPhase::Streaming, PushEvent::Logout) => (PushPhase::Disconnected, PushAction::Abort),
        (_, PushEvent::Logout) => (PushPhase::Disconnected, PushAction::Nothing),
        _ => (phase, PushAction::Nothing),
    }
}

/// The phase and the actions after `events`, in order.
pub open spec fn run(phase: PushPhase, events: Seq<PushEvent>) -> (PushPhase, Seq<PushAction>)
    decreases events.len(),
{
    if events.len() == 0 {
        (phase, Seq::empty())
    } else {
        let (p, actions) = run(phase, events.drop_last());
        let (q, a) = step(p, events.last());
        (q, actions.push(a))
    }
}

/// How many of `actions` open the channel.
pub open spec fn opens(actions: Seq<PushAction>) -> nat
    decreases actions.len(),
{
    if actions.len() == 0 {
        0
    } else {
        opens(actions.drop_last()) + if actions.last() == PushAction::Open {
            1nat
        } else {
            0nat
        }
    }
}

/// The next phase and action of the push channel.
pub fn push_step(phase: PushPhase, event: PushEvent) -> (r: (PushPhase, PushAction))
    ensures
        r == step(phase, event),
{
    match (phase, event) {
        (PushPhase::Disconnected, PushEvent::Start) => (PushPhase::Connecting, PushAction::Open),
        (PushPhase::Connecting, PushEvent::Opened) => (PushPhase::Streaming, PushAction::Nothing),
        (PushPhase::Connecting, PushEvent::Failed) => (
            PushPhase::Reconnecting,
            PushAction::Wait(RECONNECT_DELAY_MS),
        ),
        (PushPhase::Streaming, PushEvent::Failed) => (
            PushPhase::Reconnecting,
            PushAction::Wait(RECONNECT_DELAY_MS),
        ),
        (PushPhase::Reconnecting, PushEvent::DelayElapsed) => (
            PushPhase::Connecting,
            PushAction::Open,
        ),
        (PushPhase::Connecting, PushEvent::Logout) => (PushPhase::Disconnected, PushAction::Abort),
        (PushPhase::Streaming, PushEvent::Logout) => (PushPhase::Disconnected, PushAction::Abort),
        (_, PushEvent::Logout) => (PushPhase::Disconnected, PushAction::Nothing),
        _ => (phase, PushAction::Nothing),
    }
}

/// Once disconnected, nothing but a new start opens the channel again.
pub proof fn lemma_no_open_without_start(events: Seq<PushEvent>)
    requires
        forall|i: int| 0 <= i < events.len() ==> #[trigger] events[i] != PushEvent::Start,
    ensures
        run(PushPhase::Disconnected, events).0 == PushPhase::Disconnected,
        opens(run(PushPhase::Disconnected, events).1) == 0,
    decreases events.len(),
{
    if events.len() > 0 {
        let e = events.drop_last();
        assert forall|i: int| 0 <= i < e.len() implies #[trigger] e[i] != PushEvent::Start by {
            assert(e[i] == events[i]);
        }
        lemma_no_open_without_start(e);
        assert(events.last() == events[events.len() - 1]);
        let (p, actions) = run(PushPhase::Disconnected, e);
        let (q, a) = step(p, events.last());
        assert(actions.push(a).drop_last() =~= actions);
    }
}

/// After a stream fails, exactly one reconnection is scheduled, after the
/// fixed delay, and it opens the channel once when the delay is over. If the
/// user logs out before then, no later event but a new start opens it again.
pub proof fn lemma_reconnect_once(later: Seq<PushEvent>)
    requires
        forall|i: int| 0 <= i < later.len() ==> #[trigger] later[i] != PushEvent::Start,
    ensures
        run(PushPhase::Streaming, seq![PushEvent::Failed]) == (
            PushPhase::Reconnecting,
            seq![PushAction::Wait(RECONNECT_DELAY_MS)],
        ),
        run(PushPhase::Streaming, seq![PushEvent::Failed, PushEvent::DelayElapsed]).1 == seq![
            PushAction::Wait(RECONNECT_DELAY_MS),
            PushAction::Open,
        ],
        opens(run(PushPhase::Streaming, seq![PushEvent::Failed, PushEvent::DelayElapsed]).1) == 1,
        opens(run(PushPhase::Streaming, seq![PushEvent::Failed, PushEvent::Logout] + later).1) == 0,
{
    lemma_after_failure(PushEvent::DelayElapsed);
    let two = seq![PushEvent::Failed, PushEvent::DelayElapsed];
    let acts = seq![PushAction::Wait(RECONNECT_DELAY_MS), PushAction::Open];
    assert(acts.drop_last() =~= seq![PushAction::Wait(RECONNECT_DELAY_MS)]);
    assert(acts.drop_last().drop_last() =~= Seq::<PushAction>::empty());
    assert(opens(Seq::<PushAction>::empty()) == 0);
    assert(acts.drop_last().last() == PushAction::Wait(RECONNECT_DELAY_MS));
    assert(opens(acts.drop_last()) == 0);
    lemma_logout_then(later);
}

/// The runs of one failure, and of a failure followed by `e`.
proof fn lemma_after_failure(e: PushEvent)
    ensures
        run(PushPhase::Streaming, seq![PushEvent::Failed]) == (
            PushPhase::Reconnecting,
            seq![PushAction::Wait(RECONNECT_DELAY_MS)],
        ),
        run(PushPhase::Streaming, seq![PushEvent::Failed, e]) == {
            let (q, a) = step(PushPhase::Reconnecting, e);
            (q, seq![PushAction::Wait(RECONNECT_DELAY_MS), a])
        },
{
    let one = seq![PushEvent::Failed];
    let two = seq![PushEvent::Failed, e];
    assert(one.drop_last() =~= Seq::<PushEvent>::empty());
    assert(two.drop_last() =~= one);
    assert(run(PushPhase::Streaming, Seq::<PushEvent>::empty()) == (
        PushPhase::Streaming,
        Seq::<PushAction>::empty(),
    ));
    assert(Seq::<PushAction>::empty().push(PushAction::Wait(RECONNECT_DELAY_MS)) =~= seq![
        PushAction::Wait(RECONNECT_DELAY_MS),
    ]);
    assert(run(PushPhase::Streaming, one) == (
        PushPhase::Reconnecting,
        seq![PushAction::Wait(RECONNECT_DELAY_MS)],
    ));
    let (q, a) = step(PushPhase::Reconnecting, e);
    assert(seq![PushAction::Wait(RECONNECT_DELAY_MS)].push(a) =~= seq![
        PushAction::Wait(RECONNECT_DELAY_MS),
        a,
    ]);
}

/// Failing and then logging out leaves the channel disconnected with no
/// opening, whatever follows short of a new start.
proof fn lemma_logout_then(later: Seq<PushEvent>)
    requires
        forall|i: int| 0 <= i < later.len() ==> #[trigger] later[i] != PushEvent::Start,
    ensures
        run(PushPhase::Streaming, seq![PushEvent::Failed, PushEvent::Logout] + later).0
            == PushPhase::Disconnected,
        opens(run(PushPhase::Streaming, seq![PushEvent::Failed, PushEvent::Logout] + later).1) == 0,
    decreases later.len(),
{
    let prefix = seq![PushEvent::Failed, PushEvent::Logout];
    if later.len() == 0 {
        assert(prefix + later =~= prefix);
        lemma_after_failure(PushEvent::Logout);
        let acts = seq![PushAction::Wait(RECONNECT_DELAY_MS), PushAction::Nothing];
        assert(acts.drop_last() =~= seq![PushAction::Wait(RECONNECT_DELAY_MS)]);
        assert(acts.drop_last().drop_last() =~= Seq::<PushAction>::empty());
        assert(opens(Seq::<PushAction>::empty()) == 0);
        assert(acts.drop_last().last() == PushAction::Wait(RECONNECT_DELAY_MS));
        assert(opens(Seq::<PushAction>::empty()) == 0);
    assert(acts.drop_last().last() == PushAction::Wait(RECONNECT_DELAY_MS));
    assert(opens(acts.drop_last()) == 0);
    } else {
        let e = later.drop_last();
        assert forall|i: int| 0 <= i < e.len() implies #[trigger] e[i] != PushEvent::Start by {
            assert(e[i] == later[i]);
        }
        lemma_logout_then(e);
        assert((prefix + later).drop_last() =~= prefix + e);
        assert((prefix + later).last() == later[later.len() - 1]);
        let (p, actions) = run(PushPhase::Streaming, prefix + e);
        let (q, a) = step(p, later.last());
        assert(actions.push(a).drop_last() =~= actions);
    }
}

} // verus!
