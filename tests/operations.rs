use jmap_client::client::JmapClient;
use jmap_client::error::JmapError;
use jmap_client::http::HttpReply;
use jmap_client::mail::{EmailAddress, Mailbox};
use jmap_client::ops::has_more;
use jmap_client::protocol::{Invocation, JmapResponse};
use jmap_client::value::Value;

fn s(x: &str) -> Value {
    Value::Str(x.to_string())
}

fn obj(entries: Vec<(&str, Value)>) -> Value {
    Value::Object(entries.into_iter().map(|(k, v)| (k.to_string(), v)).collect())
}

const MAIL: &str = "urn:ietf:params:jmap:mail";

fn connected() -> JmapClient {
    let session = obj(vec![
        ("capabilities", obj(vec![(MAIL, obj(vec![]))])),
        ("accounts", obj(vec![])),
        ("primaryAccounts", obj(vec![(MAIL, s("a1"))])),
        ("username", s("me")),
        ("apiUrl", s("https://h/api")),
        ("downloadUrl", s("https://h/d")),
        ("uploadUrl", s("https://h/u")),
        ("state", s("0")),
    ]);
    JmapClient::connect("me", "pw", &HttpReply { status: 200, body: Some(session) }).unwrap()
}

fn one(name: &str, args: Value, id: &str) -> JmapResponse {
    JmapResponse {
        method_responses: vec![Invocation { name: name.to_string(), args, call_id: id.to_string() }],
        session_state: None,
    }
}

fn mailbox_json(id: &str, name: &str, role: Option<&str>) -> Value {
    let mut e = vec![("id", s(id)), ("name", s(name))];
    if let Some(r) = role {
        e.push(("role", s(r)));
    }
    obj(e)
}

#[test]
fn mailboxes_from_reads_list_with_defaults() {
    let list = Value::Array(vec![
        mailbox_json("mb1", "Inbox", Some("inbox")),
        obj(vec![
            ("id", s("mb2")),
            ("name", s("Work")),
            ("parentId", s("mb1")),
            ("role", Value::Null),
            ("sortOrder", Value::UInt(3)),
            ("unreadEmails", Value::UInt(7)),
            ("myRights", obj(vec![("mayReadItems", Value::Bool(true))])),
        ]),
    ]);
    let ms = JmapClient::mailboxes_from(&one("Mailbox/get", obj(vec![("list", list)]), "m0")).unwrap();
    assert_eq!(ms.len(), 2);
    assert_eq!(ms[0].role, Some("inbox".to_string()));
    assert_eq!(ms[0].sort_order, 0);
    assert_eq!(ms[1].parent_id, Some("mb1".to_string()));
    assert_eq!(ms[1].role, None);
    assert_eq!(ms[1].sort_order, 3);
    assert_eq!(ms[1].unread_emails, 7);
    let rights = ms[1].my_rights.clone().unwrap();
    assert!(rights.may_read_items);
    assert!(!rights.may_delete);
}

#[test]
fn mailboxes_from_missing_list_or_bad_item() {
    let r = JmapClient::mailboxes_from(&one("Mailbox/get", obj(vec![]), "m0"));
    assert!(matches!(r, Err(JmapError::Api(_))));
    let empty = JmapResponse { method_responses: vec![], session_state: None };
    assert!(matches!(JmapClient::mailboxes_from(&empty), Err(JmapError::Api(_))));
    let bad = Value::Array(vec![obj(vec![("id", s("x"))])]);
    let r = JmapClient::mailboxes_from(&one("Mailbox/get", obj(vec![("list", bad)]), "m0"));
    assert!(matches!(r, Err(JmapError::Json(_))));
    let bad_count = Value::Array(vec![obj(vec![
        ("id", s("x")),
        ("name", s("y")),
        ("sortOrder", Value::UInt(5_000_000_000)),
    ])]);
    let r = JmapClient::mailboxes_from(&one("Mailbox/get", obj(vec![("list", bad_count)]), "m0"));
    assert!(matches!(r, Err(JmapError::Json(_))));
}

#[test]
fn query_emails_builds_collapsed_newest_first_query() {
    let c = connected();
    let calls = c.query_emails("mb1", 50, 25);
    assert_eq!(calls.len(), 1);
    assert_eq!(calls[0].name, "Email/query");
    assert_eq!(calls[0].call_id, "q0");
    let a = &calls[0].args;
    assert_eq!(a.get("accountId"), Some(&s("a1")));
    assert_eq!(a.get("filter"), Some(&obj(vec![("inMailbox", s("mb1"))])));
    assert_eq!(
        a.get("sort"),
        Some(&Value::Array(vec![obj(vec![("property", s("receivedAt")), ("isAscending", Value::Bool(false))])]))
    );
    assert_eq!(a.get("collapseThreads"), Some(&Value::Bool(true)));
    assert_eq!(a.get("position"), Some(&Value::UInt(50)));
    assert_eq!(a.get("limit"), Some(&Value::UInt(25)));
}

/// A server holding `total` conversations answers a query page.
fn serve_query(all: &[String], call: &Invocation) -> JmapResponse {
    let position = call.args.get("position").and_then(|v| v.as_u64()).unwrap() as usize;
    let limit = call.args.get("limit").and_then(|v| v.as_u64()).unwrap() as usize;
    let start = position.min(all.len());
    let end = (position + limit).min(all.len());
    let ids = Value::Array(all[start..end].iter().map(|i| s(i)).collect());
    one("Email/query", obj(vec![("ids", ids), ("total", Value::UInt(all.len() as u64))]), "q0")
}

#[test]
fn pagination_120_by_50_reads_all_once() {
    let c = connected();
    let all: Vec<String> = (0..120).map(|i| format!("e{i}")).collect();
    let mut seen: Vec<String> = Vec::new();
    let mut more_flags = Vec::new();
    for position in [0u64, 50, 100] {
        let calls = c.query_emails("inbox-id", position, 50);
        let (ids, total) = JmapClient::query_from(&serve_query(&all, &calls[0])).unwrap();
        assert_eq!(total, 120);
        more_flags.push(has_more(position, ids.len() as u64, total));
        seen.extend(ids);
    }
    assert_eq!(seen, all);
    assert_eq!(more_flags, vec![true, true, false]);
}

#[test]
fn query_from_skips_non_strings_and_defaults() {
    let args = obj(vec![("ids", Value::Array(vec![s("a"), Value::UInt(3), s("b")])), ("total", Value::UInt(9))]);
    let (ids, total) = JmapClient::query_from(&one("Email/query", args, "q0")).unwrap();
    assert_eq!(ids, vec!["a".to_string(), "b".to_string()]);
    assert_eq!(total, 9);
    let (ids, total) = JmapClient::query_from(&one("Email/query", obj(vec![]), "q0")).unwrap();
    assert!(ids.is_empty());
    assert_eq!(total, 0);
    let empty = JmapResponse { method_responses: vec![], session_state: None };
    assert!(matches!(JmapClient::query_from(&empty), Err(JmapError::Api(_))));
}

#[test]
fn has_more_compares_position_plus_count_with_total() {
    assert!(has_more(0, 50, 120));
    assert!(!has_more(100, 20, 120));
    assert!(!has_more(0, 0, 0));
    assert!(!has_more(u64::MAX, u64::MAX, u64::MAX));
}

#[test]
fn get_emails_sends_nothing_for_no_ids() {
    let c = connected();
    assert!(c.get_emails(&[], &["id"]).is_none());
    assert!(c.get_email_bodies(&[]).is_none());
    let calls = c.get_emails(&["e1".to_string()], &["id", "subject"]).unwrap();
    assert_eq!(calls[0].name, "Email/get");
    assert_eq!(calls[0].call_id, "e0");
    assert_eq!(calls[0].args.get("ids"), Some(&Value::Array(vec![s("e1")])));
    assert_eq!(calls[0].args.get("properties"), Some(&Value::Array(vec![s("id"), s("subject")])));
}

#[test]
fn get_email_bodies_asks_for_text_bodies() {
    let c = connected();
    let calls = c.get_email_bodies(&["e1".to_string(), "e2".to_string()]).unwrap();
    assert_eq!(calls[0].call_id, "eb0");
    assert_eq!(calls[0].args.get("fetchTextBodyValues"), Some(&Value::Bool(true)));
    match calls[0].args.get("properties") {
        Some(Value::Array(p)) => {
            assert_eq!(p.len(), 18);
            assert_eq!(p[15], s("textBody"));
            assert_eq!(p[17], s("bodyValues"));
        },
        other => panic!("unexpected properties {other:?}"),
    }
}

#[test]
fn emails_from_reads_bodies_and_addresses() {
    let email = obj(vec![
        ("id", s("e1")),
        ("threadId", s("t1")),
        ("keywords", obj(vec![("$seen", Value::Bool(true))])),
        ("from", Value::Array(vec![obj(vec![("name", s("Ann")), ("email", s("ann@x.org"))])])),
        ("subject", s("Hi")),
        ("textBody", Value::Array(vec![obj(vec![("partId", s("1")), ("type", s("text/plain"))])])),
        ("bodyValues", obj(vec![("1", obj(vec![("value", s("Hello")), ("isTruncated", Value::Bool(false))]))])),
    ]);
    let list = obj(vec![("list", Value::Array(vec![email]))]);
    let es = JmapClient::emails_from(&one("Email/get", list, "e0")).unwrap();
    assert_eq!(es.len(), 1);
    let e = &es[0];
    assert_eq!(e.id, Some("e1".to_string()));
    assert_eq!(e.keywords, Some(vec![("$seen".to_string(), true)]));
    assert_eq!(e.from.as_ref().unwrap()[0].name, Some("Ann".to_string()));
    assert_eq!(e.text_body.as_ref().unwrap()[0].type_, Some("text/plain".to_string()));
    assert_eq!(e.body_values.as_ref().unwrap()[0].1.value, "Hello");
    assert_eq!(e.body_values.as_ref().unwrap()[0].1.is_truncated, Some(false));
    assert_eq!(e.cc, None);
    let bad = obj(vec![("list", Value::Array(vec![obj(vec![("subject", Value::UInt(1))])]))]);
    assert!(matches!(JmapClient::emails_from(&one("Email/get", bad, "e0")), Err(JmapError::Json(_))));
}

#[test]
fn thread_from_empty_list_is_not_found() {
    let c = connected();
    let calls = c.get_thread("t9");
    assert_eq!(calls[0].args.get("ids"), Some(&Value::Array(vec![s("t9")])));
    let empty = obj(vec![("list", Value::Array(vec![]))]);
    assert_eq!(JmapClient::thread_from(&one("Thread/get", empty, "t0")).unwrap_err(), JmapError::ThreadNotFound);
    let found = obj(vec![("list", Value::Array(vec![obj(vec![
        ("id", s("t9")),
        ("emailIds", Value::Array(vec![s("e1"), s("e2")])),
    ])]))]);
    let t = JmapClient::thread_from(&one("Thread/get", found, "t0")).unwrap();
    assert_eq!(t.id, "t9");
    assert_eq!(t.email_ids, vec!["e1".to_string(), "e2".to_string()]);
    let missing = obj(vec![]);
    assert!(matches!(JmapClient::thread_from(&one("Thread/get", missing, "t0")), Err(JmapError::Api(_))));
}

#[test]
fn identities_from_reads_list() {
    let c = connected();
    assert_eq!(c.get_identities()[0].name, "Identity/get");
    let list = obj(vec![("list", Value::Array(vec![obj(vec![
        ("id", s("i1")),
        ("email", s("me@x.org")),
        ("name", s("Me")),
        ("replyTo", Value::Null),
    ])]))]);
    let ids = JmapClient::identities_from(&one("Identity/get", list, "i0")).unwrap();
    assert_eq!(ids[0].id, "i1");
    assert_eq!(ids[0].name, Some("Me".to_string()));
    assert_eq!(ids[0].reply_to, None);
}

fn addr(name: Option<&str>, email: &str) -> EmailAddress {
    EmailAddress { name: name.map(|n| n.to_string()), email: email.to_string() }
}

#[test]
fn send_email_batches_draft_and_submission() {
    let c = connected();
    let calls = c.send_email(
        "id1",
        &[addr(Some("Me"), "me@x.org")],
        &[addr(None, "you@x.org")],
        &[],
        &[addr(None, "hidden@x.org")],
        "Subject",
        "Body text",
        "drafts-id",
        "sent-id",
    );
    assert_eq!(calls.len(), 2);
    assert_eq!((calls[0].name.as_str(), calls[0].call_id.as_str()), ("Email/set", "s0"));
    assert_eq!((calls[1].name.as_str(), calls[1].call_id.as_str()), ("EmailSubmission/set", "s1"));
    let draft = calls[0].args.get("create").and_then(|c| c.get("emailToSend")).unwrap();
    assert_eq!(draft.get("mailboxIds"), Some(&obj(vec![("drafts-id", Value::Bool(true))])));
    assert_eq!(
        draft.get("keywords"),
        Some(&obj(vec![("$seen", Value::Bool(true)), ("$draft", Value::Bool(true))]))
    );
    assert_eq!(
        draft.get("from"),
        Some(&Value::Array(vec![obj(vec![("name", s("Me")), ("email", s("me@x.org"))])]))
    );
    assert_eq!(
        draft.get("to"),
        Some(&Value::Array(vec![obj(vec![("name", Value::Null), ("email", s("you@x.org"))])]))
    );
    assert_eq!(draft.get("cc"), None);
    assert!(draft.get("bcc").is_some());
    assert_eq!(
        draft.get("bodyValues"),
        Some(&obj(vec![("body", obj(vec![("value", s("Body text"))]))]))
    );
    let sub = calls[1].args.get("create").and_then(|c| c.get("sub0")).unwrap();
    assert_eq!(sub.get("emailId"), Some(&Value::Ref("emailToSend".to_string())));
    assert_eq!(sub.get("identityId"), Some(&s("id1")));
    let update = calls[1].args.get("onSuccessUpdateEmail").and_then(|u| u.get("#emailToSend")).unwrap();
    assert_eq!(
        update,
        &obj(vec![
            ("mailboxIds/drafts-id", Value::Null),
            ("mailboxIds/sent-id", Value::Bool(true)),
            ("keywords/$draft", Value::Null),
        ])
    );
}

fn set_response(email_not_created: Option<Value>, sub_not_created: Option<Value>) -> JmapResponse {
    let mut email_args = vec![("accountId", s("a1"))];
    if let Some(e) = email_not_created {
        email_args.push(("notCreated", obj(vec![("emailToSend", e)])));
    } else {
        email_args.push(("created", obj(vec![("emailToSend", obj(vec![("id", s("M1"))]))])));
    }
    let mut sub_args = vec![("accountId", s("a1"))];
    if let Some(e) = sub_not_created {
        sub_args.push(("notCreated", obj(vec![("sub0", e)])));
    }
    JmapResponse {
        method_responses: vec![
            Invocation { name: "Email/set".to_string(), args: obj(email_args), call_id: "s0".to_string() },
            Invocation { name: "EmailSubmission/set".to_string(), args: obj(sub_args), call_id: "s1".to_string() },
        ],
        session_state: None,
    }
}

#[test]
fn send_result_ok_when_nothing_failed() {
    assert_eq!(JmapClient::send_result(&set_response(None, None)), Ok(()));
}

#[test]
fn send_result_draft_not_created_fails() {
    let err = obj(vec![("type", s("invalidProperties")), ("description", s("bad to"))]);
    let r = JmapClient::send_result(&set_response(Some(err), None));
    assert_eq!(
        r,
        Err(JmapError::MethodError {
            type_: "invalidProperties".to_string(),
            description: Some("bad to".to_string())
        })
    );
}

#[test]
fn send_result_submission_only_not_created_still_fails() {
    let err = obj(vec![("type", s("forbiddenFrom"))]);
    let r = JmapClient::send_result(&set_response(None, Some(err)));
    assert_eq!(r, Err(JmapError::MethodError { type_: "forbiddenFrom".to_string(), description: None }));
    let r = JmapClient::send_result(&set_response(None, Some(obj(vec![]))));
    assert_eq!(r, Err(JmapError::MethodError { type_: "unknown".to_string(), description: None }));
}

#[test]
fn find_mailbox_by_role_takes_first() {
    let c = connected();
    let ms: Vec<Mailbox> = vec![
        Mailbox::from_value(&mailbox_json("1", "A", None)).unwrap(),
        Mailbox::from_value(&mailbox_json("2", "Drafts", Some("drafts"))).unwrap(),
        Mailbox::from_value(&mailbox_json("3", "Drafts 2", Some("drafts"))).unwrap(),
    ];
    assert_eq!(c.find_mailbox_by_role(&ms, "drafts").map(|m| m.id.as_str()), Some("2"));
    assert!(c.find_mailbox_by_role(&ms, "sent").is_none());
}
