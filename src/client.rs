//! Connecting to a server, and the requests and replies of each operation.
use vstd::prelude::*;
use vstd::string::StringExecFns;

use crate::auth::{basic_auth, basic_auth_header};
use crate::decode::{opt_view, texts_view, text_pairs_view};
use crate::error::JmapError;
use crate::http::{
    HttpMethod, HttpReply, HttpRequest, headers_view, is_success, one_header, two_headers,
    status_is_success,
};
use crate::protocol::{
    Call, Invocation, JmapRequest, JmapResponse, calls_view, decode_response,
    encode_request,
};
use crate::session::{Session, SessionView, session_of};
use crate::text::{same_text, trim_end, trim_end_char};
use crate::value::{Json, Value, lookup};

verus! {

/// The URI of the mail capability.
pub open spec fn mail_capability() -> Seq<char> {
    "urn:ietf:params:jmap:mail"@
}

/// The capabilities that every request declares it uses.
pub open spec fn used_capabilities() -> Seq<Seq<char>> {
    seq![
        "urn:ietf:params:jmap:core"@,
        "urn:ietf:params:jmap:mail"@,
        "urn:ietf:params:jmap:submission"@,
    ]
}

/// Where a server publishes its session.
pub open spec fn well_known_url(server: Seq<char>) -> Seq<char> {
    trim_end(server, '/') + "/.well-known/jmap"@
}

/// The id of the primary mail account that a session names, if any.
pub open spec fn mail_account(s: SessionView) -> Option<Seq<char>> {
    lookup(s.primary_accounts, mail_capability())
}

/// The kind of a failed call's error: its `type`, or `unknown`.
pub open spec fn error_kind(args: Json) -> Seq<char> {
    match args.get("type"@) {
        Some(Json::Str(s)) => s,
        _ => "unknown"@,
    }
}

/// The description of a failed call's error, when it has a text one.
pub open spec fn error_description(args: Json) -> Option<Seq<char>> {
    match args.get("description"@) {
        Some(Json::Str(s)) => Some(s),
        _ => None,
    }
}

/// Whether `e` reports the error that `args` describe.
pub open spec fn is_method_error(e: JmapError, args: Json) -> bool {
    match e {
        JmapError::MethodError { type_, description } => type_@ == error_kind(args) && opt_view(
            description,
        ) == error_description(args),
        _ => false,
    }
}

/// Whether `i` is the first of `calls` named `error`.
pub open spec fn first_error(calls: Seq<Call>, i: int) -> bool {
    &&& 0 <= i < calls.len()
    &&& calls[i].name == "error"@
    &&& forall|j: int| 0 <= j < i ==> #[trigger] calls[j].name != "error"@
}

/// A connection to a server: its session, the mail account to act on, and the
/// credentials to send.
#[derive(Debug, Clone)]
pub struct JmapClient {
    pub session: Session,
    pub account_id: String,
    pub api_url: String,
    pub auth_header: String,
}

impl JmapClient {
    /// The account is the session's primary mail account, and calls go to the
    /// session's API URL.
    pub open spec fn wf(&self) -> bool {
        &&& self.session@.capabilities.contains(mail_capability())
        &&& mail_account(self.session@) == Some(self.account_id@)
        &&& self.api_url@ == self.session@.api_url
    }

    /// The request that fetches the session of the server at `server_url`.
    pub fn discovery_request(server_url: &str, username: &str, password: &str) -> (r: HttpRequest)
        ensures
            r.method == HttpMethod::Get,
            r.url@ == well_known_url(server_url@),
            headers_view(r.headers@) == seq![
                ("Authorization"@, basic_auth(username@, password@)),
            ],
            r.body is None,
    {
        let mut url = trim_end_char(server_url, '/').to_owned();
        url.append("/.well-known/jmap");
        let headers = one_header("Authorization", basic_auth_header(username, password));
        HttpRequest { method: HttpMethod::Get, url, headers, body: None }
    }

    /// A connection from the reply to the discovery request.
    ///
    /// A 401 is an authentication failure whatever the body says; any other
    /// status that is not a success is a failure of its own. A session without
    /// the mail capability is refused before its accounts are looked at, and
    /// one that names no primary mail account is refused too.
    pub fn connect(username: &str, password: &str, reply: &HttpReply) -> (r: Result<
        JmapClient,
        JmapError,
    >)
        ensures
            reply.status == 401 ==> r == Err::<JmapClient, JmapError>(JmapError::Auth),
            reply.status != 401 && !is_success(reply.status) ==> r == Err::<JmapClient, JmapError>(
                JmapError::Status(reply.status),
            ),
            is_success(reply.status) && (reply.body is None || session_of(reply.body->0@) is None)
                ==> r matches Err(JmapError::Json(_)),
            is_success(reply.status) && reply.body is Some ==> (session_of(reply.body->0@) matches Some(s)
                ==> {
                if !s.capabilities.contains(mail_capability()) {
                    r == Err::<JmapClient, JmapError>(JmapError::NoMailCapability)
                } else if mail_account(s) is None {
                    r == Err::<JmapClient, JmapError>(JmapError::NoAccount)
                } else {
                    r matches Ok(c) && c.wf() && c.session@ == s && c.account_id@ == mail_account(
                        s,
                    )->0 && c.auth_header@ == basic_auth(username@, password@)
                }
            }),
    {
        if reply.status == 401 {
            return Err(JmapError::Auth);
        }
        if !status_is_success(reply.status) {
            return Err(JmapError::Status(reply.status));
        }
        let body = match &reply.body {
            Some(b) => b,
            None => return Err(JmapError::Json("session reply is not JSON".to_owned())),
        };
        let session = match Session::from_value(body) {
            Some(s) => s,
            None => return Err(JmapError::Json("reply is not a session".to_owned())),
        };
        if !has_text(&session.capabilities, "urn:ietf:params:jmap:mail") {
            return Err(JmapError::NoMailCapability);
        }
        let account_id = match find_text(&session.primary_accounts, "urn:ietf:params:jmap:mail") {
            Some(a) => a,
            None => return Err(JmapError::NoAccount),
        };
        let api_url = session.api_url.clone();
        let auth_header = basic_auth_header(username, password);
        Ok(JmapClient { session, account_id, api_url, auth_header })
    }

    /// The session fetched when connecting.
    pub fn session(&self) -> (r: &Session)
        ensures
            r == &self.session,
    {
        &self.session
    }

    /// The id of the mail account that operations act on.
    pub fn account_id(&self) -> (r: &str)
        ensures
            r@ == self.account_id@,
    {
        self.account_id.as_str()
    }

    /// The value of the `Authorization` header sent with every request.
    pub fn auth_header(&self) -> (r: &str)
        ensures
            r@ == self.auth_header@,
    {
        self.auth_header.as_str()
    }

    /// The HTTP request that sends `method_calls` as one batch.
    pub fn api_request(&self, method_calls: Vec<Invocation>) -> (r: HttpRequest)
        ensures
            r.method == HttpMethod::Post,
            r.url@ == self.api_url@,
            headers_view(r.headers@) == seq![
                ("Authorization"@, self.auth_header@),
                ("Content-Type"@, "application/json"@),
            ],
            r.body matches Some(b) && b@ == encode_request(
                used_capabilities(),
                calls_view(method_calls@),
            ),
    {
        let mut using: Vec<String> = Vec::new();
        using.push("urn:ietf:params:jmap:core".to_owned());
        using.push("urn:ietf:params:jmap:mail".to_owned());
        using.push("urn:ietf:params:jmap:submission".to_owned());
        assert(texts_view(using@) =~= used_capabilities());
        let body = JmapRequest { using, method_calls }.to_value();
        let headers = two_headers(
            "Authorization",
            self.auth_header.clone(),
            "Content-Type",
            "application/json",
        );
        HttpRequest { method: HttpMethod::Post, url: self.api_url.clone(), headers, body: Some(body) }
    }

    /// The response in the reply to an API request.
    ///
    /// Authentication failures and other failed statuses come first. A
    /// response in which any call failed is a failure as a whole: the first
    /// failed call's error is returned, and none of the other results.
    #[verifier::loop_isolation(false)]
    pub fn api_response(reply: &HttpReply) -> (r: Result<JmapResponse, JmapError>)
        ensures
            reply.status == 401 ==> r == Err::<JmapResponse, JmapError>(JmapError::Auth),
            reply.status != 401 && !is_success(reply.status) ==> r == Err::<
                JmapResponse,
                JmapError,
            >(JmapError::Status(reply.status)),
            is_success(reply.status) && (reply.body is None || decode_response(reply.body->0@) is None)
                ==> r matches Err(JmapError::Json(_)),
            is_success(reply.status) && reply.body is Some ==> (decode_response(reply.body->0@) matches Some(m)
                ==> {
                &&& (forall|i: int| 0 <= i < m.calls.len() ==> #[trigger] m.calls[i].name != "error"@)
                    ==> (r matches Ok(resp) && resp@ == m)
                &&& forall|i: int| #[trigger]
                    first_error(m.calls, i) ==> (r matches Err(e) && is_method_error(
                        e,
                        m.calls[i].args,
                    ))
            }),
    {
        if reply.status == 401 {
            return Err(JmapError::Auth);
        }
        if !status_is_success(reply.status) {
            return Err(JmapError::Status(reply.status));
        }
        let body = match &reply.body {
            Some(b) => b,
            None => return Err(JmapError::Json("reply is not JSON".to_owned())),
        };
        let response = match JmapResponse::from_value(body) {
            Some(r) => r,
            None => return Err(JmapError::Json("reply is not a response".to_owned())),
        };
        let ghost m = response@;
        let mut i: usize = 0;
        while i < response.method_responses.len()
            invariant
                m == response@,
                m.calls.len() == response.method_responses@.len(),
                i <= response.method_responses.len(),
                forall|j: int| 0 <= j < i ==> #[trigger] m.calls[j].name != "error"@,
            decreases response.method_responses.len() - i,
        {
            let inv = &response.method_responses[i];
            assert(m.calls[i as int] == inv@);
            if same_text(inv.name.as_str(), "error") {
                let e = method_error(&inv.args);
                assert(first_error(m.calls, i as int));
                assert forall|k: int| #[trigger] first_error(m.calls, k) implies k == i by {
                    if k < i {
                    } else if k > i {
                        assert(m.calls[i as int].name != "error"@);
                    }
                }
                return Err(e);
            }
            i += 1;
        }
        Ok(response)
    }
}

/// The error that a failed call's arguments describe.
pub fn method_error(args: &Value) -> (r: JmapError)
    ensures
        is_method_error(r, args@),
{
    let type_ = match args.get("type") {
        Some(Value::Str(s)) => s.clone(),
        _ => "unknown".to_owned(),
    };
    let description = match args.get("description") {
        Some(Value::Str(s)) => Some(s.clone()),
        _ => None,
    };
    JmapError::MethodError { type_, description }
}

/// Whether `l` holds `t`.
pub fn has_text(l: &Vec<String>, t: &str) -> (r: bool)
    ensures
        r == texts_view(l@).contains(t@),
{
    let mut i: usize = 0;
    while i < l.len()
        invariant
            i <= l.len(),
            forall|j: int| 0 <= j < i ==> #[trigger] l@[j]@ != t@,
        decreases l.len() - i,
    {
        if same_text(l[i].as_str(), t) {
            assert(texts_view(l@)[i as int] == t@);
            return true;
        }
        i += 1;
    }
    assert(!texts_view(l@).contains(t@)) by {
        assert forall|j: int| 0 <= j < l@.len() implies #[trigger] texts_view(l@)[j] != t@ by {}
    }
    false
}

/// The text under `key` in a list of text entries.
pub fn find_text(l: &Vec<(String, String)>, key: &str) -> (r: Option<String>)
    ensures
        opt_view(r) == lookup(text_pairs_view(l@), key@),
{
    match crate::value::find_key(l, key) {
        Some(i) => {
            proof {
                lemma_lookup_pairs(l@, key@, i as int);
            }
            Some(l[i].1.clone())
        },
        None => {
            proof {
                lemma_lookup_pairs(l@, key@, l@.len() as int);
            }
            None
        },
    }
}

/// `lookup` on text entries finds the first entry under `key`.
pub proof fn lemma_lookup_pairs(l: Seq<(String, String)>, key: Seq<char>, n: int)
    requires
        0 <= n <= l.len(),
        forall|j: int| 0 <= j < n ==> #[trigger] l[j].0@ != key,
        n < l.len() ==> l[n].0@ == key,
    ensures
        n < l.len() ==> lookup(text_pairs_view(l), key) == Some(l[n].1@),
        n == l.len() ==> lookup(text_pairs_view(l), key) is None,
{
    let m = text_pairs_view(l);
    crate::value::lemma_lookup_skip(m, key, n);
    if n < l.len() {
        let s = m.subrange(n, m.len() as int);
        assert(s[0] == m[n]);
    } else {
        assert(m.subrange(n, m.len() as int).len() == 0);
    }
}

} // verus!
