use jmap_client::client::JmapClient;
use jmap_client::http::{HttpMethod, HttpReply};
use jmap_client::push::{
    PushAction, PushEvent, PushPhase, StateChange, expand_event_source_url, push_step,
};
use jmap_client::sse::{SseEvent, SseParser, is_state_event};
use jmap_client::store::{AppState, handle_state_change};
use jmap_client::value::Value;

fn s(x: &str) -> Value {
    Value::Str(x.to_string())
}

fn obj(entries: Vec<(&str, Value)>) -> Value {
    Value::Object(entries.into_iter().map(|(k, v)| (k.to_string(), v)).collect())
}

fn from_json(j: &serde_json::Value) -> Value {
    match j {
        serde_json::Value::Null => Value::Null,
        serde_json::Value::Bool(b) => Value::Bool(*b),
        serde_json::Value::Number(n) => match n.as_u64() {
            Some(u) => Value::UInt(u),
            None => Value::Int(n.as_i64().unwrap()),
        },
        serde_json::Value::String(t) => Value::Str(t.clone()),
        serde_json::Value::Array(a) => Value::Array(a.iter().map(from_json).collect()),
        serde_json::Value::Object(m) => {
            Value::Object(m.iter().map(|(k, v)| (k.clone(), from_json(v))).collect())
        },
    }
}

fn ev(t: &str, d: &str) -> SseEvent {
    SseEvent { event_type: t.to_string(), data: d.to_string() }
}

#[test]
fn sse_state_event_decodes_to_state_change() {
    let mut p = SseParser::new();
    let mut events = Vec::new();
    events.extend(p.feed("event: state\n"));
    events.extend(p.feed("data: {\"changed\":{\"a1\":{\"Email\":\"s2\"}}}\n"));
    events.extend(p.feed("\n"));
    assert_eq!(events.len(), 1);
    assert!(is_state_event(&events[0]));
    let json: serde_json::Value = serde_json::from_str(&events[0].data).unwrap();
    let change = StateChange::from_value(&from_json(&json)).unwrap();
    assert_eq!(change.changed.len(), 1);
    assert_eq!(change.changed[0].0, "a1");
    assert_eq!(change.changed[0].1, vec![("Email".to_string(), "s2".to_string())]);
}

#[test]
fn sse_data_without_event_is_message() {
    let mut p = SseParser::new();
    let events = p.feed("data: {\"changed\":{}}\n\n");
    assert_eq!(events, vec![ev("message", "{\"changed\":{}}")]);
    assert!(!is_state_event(&events[0]));
}

#[test]
fn sse_chunk_boundaries_do_not_matter() {
    let text = ": ping\r\nid: 7\r\nevent: state\r\ndata: one\r\ndata:  two \r\n\r\ndata: x\n\n";
    let mut whole = SseParser::new();
    let all = whole.feed(text);
    assert_eq!(all, vec![ev("state", "one\ntwo"), ev("message", "x")]);
    for cut in 0..text.len() {
        if !text.is_char_boundary(cut) {
            continue;
        }
        let mut p = SseParser::new();
        let mut got = p.feed(&text[..cut]);
        got.extend(p.feed(&text[cut..]));
        assert_eq!(got, all, "cut at {cut}");
    }
}

#[test]
fn sse_feed_line_rules() {
    let mut p = SseParser::new();
    assert_eq!(p.feed_line(""), None);
    assert_eq!(p.feed_line(":comment"), None);
    assert_eq!(p.feed_line("event:state"), None);
    assert_eq!(p.feed_line(""), None);
    assert_eq!(p.feed_line("data:a"), None);
    assert_eq!(p.feed_line(""), Some(ev("message", "a")));
}

#[test]
fn state_change_rejects_bad_shapes() {
    assert!(StateChange::from_value(&obj(vec![])).is_none());
    let bad = obj(vec![("changed", obj(vec![("a1", obj(vec![("Email", Value::UInt(2))]))]))]);
    assert!(StateChange::from_value(&bad).is_none());
}

#[test]
fn event_url_template_is_filled() {
    assert_eq!(
        expand_event_source_url("https://h/ev?types={types}&closeafter={closeafter}&ping={ping}", "*", "no", "30"),
        "https://h/ev?types=*&closeafter=no&ping=30"
    );
    assert_eq!(expand_event_source_url("{ping}{ping}", "*", "no", "30"), "3030");
}

const MAIL: &str = "urn:ietf:params:jmap:mail";

fn client(event_url: Option<&str>) -> JmapClient {
    let mut e = vec![
        ("capabilities", obj(vec![(MAIL, obj(vec![]))])),
        ("accounts", obj(vec![])),
        ("primaryAccounts", obj(vec![(MAIL, s("a1"))])),
        ("username", s("me")),
        ("apiUrl", s("https://h/api")),
        ("downloadUrl", s("https://h/d")),
        ("uploadUrl", s("https://h/u")),
        ("state", s("0")),
    ];
    if let Some(u) = event_url {
        e.push(("eventSourceUrl", s(u)));
    }
    JmapClient::connect("me", "pw", &HttpReply { status: 200, body: Some(obj(e)) }).unwrap()
}

#[test]
fn event_source_request_subscribes_to_all() {
    assert!(client(None).event_source_request().is_none());
    let r = client(Some("https://h/ev/{types}/{closeafter}/{ping}")).event_source_request().unwrap();
    assert_eq!(r.method, HttpMethod::Get);
    assert_eq!(r.url, "https://h/ev/*/no/30");
    assert_eq!(r.headers[1], ("Accept".to_string(), "text/event-stream".to_string()));
}

#[test]
fn reconnect_once_after_failure() {
    let (p, a) = push_step(PushPhase::Streaming, PushEvent::Failed);
    assert_eq!((p, a), (PushPhase::Reconnecting, PushAction::Wait(3000)));
    let (p, a) = push_step(p, PushEvent::DelayElapsed);
    assert_eq!((p, a), (PushPhase::Connecting, PushAction::Open));
    let (p, a) = push_step(p, PushEvent::Opened);
    assert_eq!((p, a), (PushPhase::Streaming, PushAction::Nothing));
}

#[test]
fn no_reconnect_after_logout_during_delay() {
    let (p, _) = push_step(PushPhase::Streaming, PushEvent::Failed);
    let (p, a) = push_step(p, PushEvent::Logout);
    assert_eq!((p, a), (PushPhase::Disconnected, PushAction::Nothing));
    let (p, a) = push_step(p, PushEvent::DelayElapsed);
    assert_eq!((p, a), (PushPhase::Disconnected, PushAction::Nothing));
    let (_, a) = push_step(PushPhase::Streaming, PushEvent::Logout);
    assert_eq!(a, PushAction::Abort);
    let (p, a) = push_step(PushPhase::Disconnected, PushEvent::Start);
    assert_eq!((p, a), (PushPhase::Connecting, PushAction::Open));
    let (p, a) = push_step(p, PushEvent::Failed);
    assert_eq!((p, a), (PushPhase::Reconnecting, PushAction::Wait(3000)));
}

fn change(entries: Vec<(&str, Vec<(&str, &str)>)>) -> StateChange {
    StateChange {
        changed: entries
            .into_iter()
            .map(|(a, t)| (a.to_string(), t.into_iter().map(|(k, v)| (k.to_string(), v.to_string())).collect()))
            .collect(),
    }
}

#[test]
fn state_change_for_other_account_is_ignored() {
    let mut st = AppState::new();
    st.client = Some(client(None));
    let refetch = handle_state_change(&mut st, &change(vec![("other", vec![("Email", "s9"), ("Mailbox", "m9")])]));
    assert!(!refetch);
    assert_eq!(st.email_refresh_trigger, 0);
    assert_eq!(st.email_state, None);
}

#[test]
fn state_change_bumps_counter_and_records_token() {
    let mut st = AppState::new();
    st.client = Some(client(None));
    let refetch = handle_state_change(&mut st, &change(vec![("a1", vec![("Email", "s2")])]));
    assert!(!refetch);
    assert_eq!(st.email_refresh_trigger, 1);
    assert_eq!(st.email_state, Some("s2".to_string()));
    let refetch = handle_state_change(&mut st, &change(vec![("a1", vec![("Mailbox", "m3"), ("Email", "s3")])]));
    assert!(refetch);
    assert_eq!(st.email_refresh_trigger, 2);
    assert_eq!(st.email_state, Some("s3".to_string()));
    st.email_refresh_trigger = u64::MAX;
    handle_state_change(&mut st, &change(vec![("a1", vec![("Email", "s4")])]));
    assert_eq!(st.email_refresh_trigger, 0);
}

#[test]
fn state_change_without_client_does_nothing() {
    let mut st = AppState::new();
    assert!(!handle_state_change(&mut st, &change(vec![("a1", vec![("Mailbox", "m")])])));
    assert_eq!(st.email_refresh_trigger, 0);
}

#[test]
fn logout_clears_everything_but_auto_login_flag() {
    let mut st = AppState::new();
    st.client = Some(client(None));
    st.reply_all = true;
    st.email_refresh_trigger = 5;
    st.auto_login_done = true;
    st.selected_mailbox = Some("mb".to_string());
    st.logout();
    assert!(st.client.is_none());
    assert!(!st.reply_all);
    assert_eq!(st.email_refresh_trigger, 0);
    assert_eq!(st.selected_mailbox, None);
    assert!(st.auto_login_done);
}
