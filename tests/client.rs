use jmap_client::client::JmapClient;
use jmap_client::error::JmapError;
use jmap_client::http::{HttpMethod, HttpReply};
use jmap_client::protocol::{Invocation, JmapResponse, decode_calls, encode_calls};
use jmap_client::value::Value;

fn s(x: &str) -> Value {
    Value::Str(x.to_string())
}

fn obj(entries: Vec<(&str, Value)>) -> Value {
    Value::Object(entries.into_iter().map(|(k, v)| (k.to_string(), v)).collect())
}

fn session_json(capabilities: Vec<&str>, primary: Vec<(&str, &str)>) -> Value {
    obj(vec![
        ("capabilities", obj(capabilities.into_iter().map(|c| (c, obj(vec![]))).collect())),
        (
            "accounts",
            obj(vec![(
                "a1",
                obj(vec![
                    ("name", s("me@example.com")),
                    ("isPersonal", Value::Bool(true)),
                    ("isReadOnly", Value::Bool(false)),
                ]),
            )]),
        ),
        ("primaryAccounts", obj(primary.into_iter().map(|(k, v)| (k, s(v))).collect())),
        ("username", s("me@example.com")),
        ("apiUrl", s("https://jmap.example.com/api/")),
        ("downloadUrl", s("https://jmap.example.com/download/")),
        ("uploadUrl", s("https://jmap.example.com/upload/")),
        ("eventSourceUrl", s("https://jmap.example.com/events/?types={types}&closeafter={closeafter}&ping={ping}")),
        ("state", s("st1")),
    ])
}

const MAIL: &str = "urn:ietf:params:jmap:mail";
const CORE: &str = "urn:ietf:params:jmap:core";

fn good_session() -> Value {
    session_json(vec![CORE, MAIL], vec![(MAIL, "a1")])
}

fn connected() -> JmapClient {
    let reply = HttpReply { status: 200, body: Some(good_session()) };
    JmapClient::connect("me@example.com", "secret", &reply).unwrap()
}

#[test]
fn discovery_request_trims_trailing_slashes() {
    let r = JmapClient::discovery_request("https://jmap.example.com//", "user", "pass");
    assert_eq!(r.method, HttpMethod::Get);
    assert_eq!(r.url, "https://jmap.example.com/.well-known/jmap");
    assert_eq!(r.headers, vec![("Authorization".to_string(), "Basic dXNlcjpwYXNz".to_string())]);
    assert!(r.body.is_none());
}

#[test]
fn connect_on_401_is_auth_error_whatever_the_body() {
    for body in [None, Some(good_session()), Some(session_json(vec![MAIL], vec![]))] {
        let reply = HttpReply { status: 401, body };
        assert_eq!(JmapClient::connect("u", "p", &reply).unwrap_err(), JmapError::Auth);
    }
}

#[test]
fn connect_on_other_failure_status_carries_it() {
    let reply = HttpReply { status: 503, body: Some(good_session()) };
    assert_eq!(JmapClient::connect("u", "p", &reply).unwrap_err(), JmapError::Status(503));
}

#[test]
fn connect_without_mail_capability_fails_even_with_mail_account() {
    let reply = HttpReply { status: 200, body: Some(session_json(vec![CORE], vec![(MAIL, "a1")])) };
    assert_eq!(JmapClient::connect("u", "p", &reply).unwrap_err(), JmapError::NoMailCapability);
}

#[test]
fn connect_without_primary_mail_account_fails() {
    let reply = HttpReply { status: 200, body: Some(session_json(vec![CORE, MAIL], vec![(CORE, "a1")])) };
    assert_eq!(JmapClient::connect("u", "p", &reply).unwrap_err(), JmapError::NoAccount);
}

#[test]
fn connect_with_unreadable_session_is_json_error() {
    let reply = HttpReply { status: 200, body: None };
    assert!(matches!(JmapClient::connect("u", "p", &reply), Err(JmapError::Json(_))));
    let missing_api = obj(vec![("capabilities", obj(vec![(MAIL, obj(vec![]))]))]);
    let reply = HttpReply { status: 200, body: Some(missing_api) };
    assert!(matches!(JmapClient::connect("u", "p", &reply), Err(JmapError::Json(_))));
}

#[test]
fn connect_picks_primary_mail_account() {
    let c = connected();
    assert_eq!(c.account_id(), "a1");
    assert_eq!(c.api_url, "https://jmap.example.com/api/");
    assert_eq!(c.auth_header(), "Basic bWVAZXhhbXBsZS5jb206c2VjcmV0");
    assert_eq!(c.session().username, "me@example.com");
    assert_eq!(c.session().capabilities, vec![CORE.to_string(), MAIL.to_string()]);
    assert_eq!(c.session().accounts[0].1.name, "me@example.com");
}

#[test]
fn api_request_posts_envelope_with_capabilities() {
    let c = connected();
    let calls = c.get_mailboxes();
    let r = c.api_request(calls);
    assert_eq!(r.method, HttpMethod::Post);
    assert_eq!(r.url, "https://jmap.example.com/api/");
    assert_eq!(r.headers[1], ("Content-Type".to_string(), "application/json".to_string()));
    let body = r.body.unwrap();
    assert_eq!(
        body.get("using"),
        Some(&Value::Array(vec![
            s(CORE),
            s(MAIL),
            s("urn:ietf:params:jmap:submission"),
        ]))
    );
    let calls = decode_calls(body.get("methodCalls").unwrap()).unwrap();
    assert_eq!(calls.len(), 1);
    assert_eq!(calls[0].name, "Mailbox/get");
    assert_eq!(calls[0].call_id, "m0");
    assert_eq!(calls[0].args, obj(vec![("accountId", s("a1")), ("ids", Value::Null)]));
}

#[test]
fn batch_round_trip_keeps_count_and_order() {
    let batch = vec![
        Invocation { name: "A/get".to_string(), args: obj(vec![("x", Value::UInt(1))]), call_id: "c0".to_string() },
        Invocation { name: "B/set".to_string(), args: Value::Ref("k".to_string()), call_id: "c1".to_string() },
        Invocation { name: "C/query".to_string(), args: Value::Null, call_id: "c2".to_string() },
    ];
    let expected = vec![
        Invocation { name: "A/get".to_string(), args: obj(vec![("x", Value::UInt(1))]), call_id: "c0".to_string() },
        Invocation { name: "B/set".to_string(), args: Value::Ref("k".to_string()), call_id: "c1".to_string() },
        Invocation { name: "C/query".to_string(), args: Value::Null, call_id: "c2".to_string() },
    ];
    let wire = encode_calls(batch);
    assert_eq!(decode_calls(&wire).unwrap(), expected);
    assert_eq!(decode_calls(&encode_calls(vec![])).unwrap(), vec![]);
    assert!(decode_calls(&Value::Array(vec![Value::Array(vec![s("only-name")])])).is_none());
}

fn response(calls: Vec<Value>) -> Value {
    obj(vec![("methodResponses", Value::Array(calls)), ("sessionState", s("st1"))])
}

fn call(name: &str, args: Value, id: &str) -> Value {
    Value::Array(vec![s(name), args, s(id)])
}

#[test]
fn api_response_decodes_envelope() {
    let body = response(vec![call("Mailbox/get", obj(vec![("list", Value::Array(vec![]))]), "m0")]);
    let r = JmapClient::api_response(&HttpReply { status: 200, body: Some(body) }).unwrap();
    assert_eq!(r.method_responses.len(), 1);
    assert_eq!(r.method_responses[0].call_id, "m0");
    assert_eq!(r.session_state, Some("st1".to_string()));
}

#[test]
fn api_response_error_anywhere_fails_whole_batch() {
    let body = response(vec![
        call("Mailbox/get", obj(vec![("list", Value::Array(vec![]))]), "m0"),
        call("error", obj(vec![("type", s("unknownMethod")), ("description", s("no such method"))]), "m1"),
        call("error", obj(vec![("type", s("serverFail"))]), "m2"),
    ]);
    let r = JmapClient::api_response(&HttpReply { status: 200, body: Some(body) });
    assert_eq!(
        r.unwrap_err(),
        JmapError::MethodError {
            type_: "unknownMethod".to_string(),
            description: Some("no such method".to_string())
        }
    );
    let body = response(vec![call("error", obj(vec![]), "m0")]);
    let r = JmapClient::api_response(&HttpReply { status: 200, body: Some(body) });
    assert_eq!(
        r.unwrap_err(),
        JmapError::MethodError { type_: "unknown".to_string(), description: None }
    );
}

#[test]
fn api_response_statuses_and_shapes() {
    assert_eq!(
        JmapClient::api_response(&HttpReply { status: 401, body: None }).unwrap_err(),
        JmapError::Auth
    );
    assert_eq!(
        JmapClient::api_response(&HttpReply { status: 404, body: None }).unwrap_err(),
        JmapError::Status(404)
    );
    assert!(matches!(
        JmapClient::api_response(&HttpReply { status: 200, body: Some(s("x")) }),
        Err(JmapError::Json(_))
    ));
    let decoded = JmapResponse::from_value(&obj(vec![("methodResponses", Value::Array(vec![]))])).unwrap();
    assert_eq!(decoded.session_state, None);
}
