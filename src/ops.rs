//! The operations of the client: the calls that each one sends, and what its
//! response means.
use vstd::prelude::*;

use crate::client::JmapClient;
use crate::decode::{list_of, texts_view};
use crate::error::JmapError;
use crate::mail::{
    Email, Identity, Mailbox, Thread, email_of, identity_of, mailbox_of, thread_of,
};
use crate::protocol::{Call, Invocation, JmapResponse, ResponseView, calls_view};
use crate::value::{Json, Value, push_entry, push_item, strings_to_value, strs_to_value, views, lemma_views};

verus! {

/// A call on `account` with the entries `rest` after `accountId`.
pub open spec fn account_call(name: Seq<char>, account: Seq<char>, rest: Seq<(Seq<char>, Json)>, id: Seq<char>) -> Call {
    Call { name, args: Json::Object(seq![("accountId"@, Json::Str(account))] + rest), id }
}

/// The properties fetched for an email's full view: everything needed to show
/// it, with the text bodies' content.
pub open spec fn body_properties() -> Seq<Seq<char>> {
    seq![
        "id"@, "blobId"@, "threadId"@, "mailboxIds"@, "keywords"@, "from"@, "to"@, "cc"@, "bcc"@,
        "replyTo"@, "subject"@, "sentAt"@, "receivedAt"@, "hasAttachment"@, "preview"@,
        "textBody"@, "htmlBody"@, "bodyValues"@,
    ]
}

/// The models of a list of texts, as an array of strings.
pub open spec fn texts_array(l: Seq<Seq<char>>) -> Json {
    Json::Array(l.map_values(|s: Seq<char>| Json::Str(s)))
}

/// The items of the `list` of the first response, when it has one.
pub open spec fn response_list(m: ResponseView) -> Option<Seq<Json>> {
    if m.calls.len() > 0 {
        match m.calls[0].args.get("list"@) {
            Some(Json::Array(a)) => Some(a),
            _ => None,
        }
    } else {
        None
    }
}

/// The arguments of the first response, when there is one.
pub open spec fn first_args(m: ResponseView) -> Option<Json> {
    if m.calls.len() > 0 {
        Some(m.calls[0].args)
    } else {
        None
    }
}

/// The texts among `a`, in order; other items are skipped.
pub open spec fn strings_in(a: Seq<Json>) -> Seq<Seq<char>>
    decreases a.len(),
{
    if a.len() == 0 {
        Seq::empty()
    } else {
        let rest = strings_in(a.drop_last());
        match a.last() {
            Json::Str(s) => rest.push(s),
            _ => rest,
        }
    }
}

/// The ids that a query's result lists; none when it lists nothing.
pub open spec fn query_ids(args: Json) -> Seq<Seq<char>> {
    match args.get("ids"@) {
        Some(Json::Array(a)) => strings_in(a),
        _ => Seq::empty(),
    }
}

/// The total that a query's result reports; zero when it reports none.
pub open spec fn query_total(args: Json) -> int {
    match args.get("total"@) {
        Some(Json::Number(n)) => if 0 <= n <= u64::MAX {
            n
        } else {
            0
        },
        _ => 0,
    }
}

/// Whether more results follow a page of `returned` results at `position`.
pub open spec fn more_after(position: int, returned: int, total: int) -> bool {
    position + returned < total
}

/// The page of results that a query at `position` with `limit` gets, out of
/// the full ordered result `all`.
pub open spec fn page<T>(all: Seq<T>, position: int, limit: int) -> Seq<T> {
    let start = if position < all.len() {
        position
    } else {
        all.len() as int
    };
    let end = if position + limit < all.len() {
        position + limit
    } else {
        all.len() as int
    };
    all.subrange(start, end)
}

/// All results read page by page from `position` on: each query starts where
/// the previous page ended, for as long as more are reported.
pub open spec fn read_pages<T>(all: Seq<T>, limit: int, position: int) -> Seq<T>
    decreases all.len() - position,
{
    if limit <= 0 || position < 0 || position >= all.len() {
        Seq::empty()
    } else {
        let p = page(all, position, limit);
        if more_after(position, p.len() as int, all.len() as int) {
            p + read_pages(all, limit, position + p.len())
        } else {
            p
        }
    }
}

/// Paging through a query's results with a positive limit, each query
/// starting where the last page ended, reads every result exactly once and
/// in order, and a page reports no more results exactly when it reaches the
/// end.
pub proof fn lemma_pages_cover<T>(all: Seq<T>, limit: int, position: int)
    requires
        limit > 0,
        0 <= position <= all.len(),
    ensures
        read_pages(all, limit, position) == all.subrange(position, all.len() as int),
        !more_after(position, page(all, position, limit).len() as int, all.len() as int)
            <==> position + limit >= all.len(),
    decreases all.len() - position,
{
    if position < all.len() {
        let p = page(all, position, limit);
        if position + limit < all.len() {
            lemma_pages_cover(all, limit, position + limit);
            assert(p + all.subrange(position + limit, all.len() as int) =~= all.subrange(
                position,
                all.len() as int,
            ));
        }
    } else {
        assert(all.subrange(position, all.len() as int) =~= Seq::<T>::empty());
    }
}

/// The object `{k: v}`.
fn object1(k: &str, v: Value) -> (r: Value)
    ensures
        r@ == Json::Object(seq![(k@, v@)]),
{
    let mut e: Vec<(String, Value)> = Vec::new();
    push_entry(&mut e, k, v);
    assert(crate::value::entry_views(e@) =~= seq![(k@, v@)]);
    Value::Object(e)
}

/// The entries of a call's arguments, starting with the account id.
fn account_entries(account: &String) -> (r: Vec<(String, Value)>)
    ensures
        crate::value::entry_views(r@) == seq![("accountId"@, Json::Str(account@))],
{
    let mut e: Vec<(String, Value)> = Vec::new();
    push_entry(&mut e, "accountId", Value::Str(account.clone()));
    assert(crate::value::entry_views(e@) =~= seq![("accountId"@, Json::Str(account@))]);
    e
}

/// One call, as a batch.
fn batch1(name: &str, entries: Vec<(String, Value)>, id: &str) -> (r: Vec<Invocation>)
    ensures
        calls_view(r@) == seq![
            Call { name: name@, args: Json::Object(crate::value::entry_views(entries@)), id: id@ },
        ],
{
    let mut r: Vec<Invocation> = Vec::new();
    r.push(Invocation { name: name.to_owned(), args: Value::Object(entries), call_id: id.to_owned() });
    assert(calls_view(r@) =~= seq![
        Call { name: name@, args: Json::Object(crate::value::entry_views(entries@)), id: id@ },
    ]);
    r
}

impl JmapClient {
    /// The calls that fetch all of the account's mailboxes.
    pub fn get_mailboxes(&self) -> (r: Vec<Invocation>)
        ensures
            calls_view(r@) == seq![
                account_call("Mailbox/get"@, self.account_id@, seq![("ids"@, Json::Null)], "m0"@),
            ],
    {
        let mut e = account_entries(&self.account_id);
        push_entry(&mut e, "ids", Value::Null);
        assert(crate::value::entry_views(e@) =~= seq![("accountId"@, Json::Str(self.account_id@))]
            + seq![("ids"@, Json::Null)]);
        batch1("Mailbox/get", e, "m0")
    }

    /// The calls that fetch one page of a mailbox's conversations, newest
    /// first: at most `limit` emails from `position` on, one per thread.
    pub fn query_emails(&self, mailbox_id: &str, position: u64, limit: u64) -> (r: Vec<Invocation>)
        ensures
            calls_view(r@) == seq![
                account_call(
                    "Email/query"@,
                    self.account_id@,
                    seq![
                        ("filter"@, Json::Object(seq![("inMailbox"@, Json::Str(mailbox_id@))])),
                        ("sort"@, Json::Array(seq![Json::Object(seq![
                            ("property"@, Json::Str("receivedAt"@)),
                            ("isAscending"@, Json::Bool(false)),
                        ])])),
                        ("collapseThreads"@, Json::Bool(true)),
                        ("position"@, Json::Number(position as int)),
                        ("limit"@, Json::Number(limit as int)),
                    ],
                    "q0"@,
                ),
            ],
    {
        let mut order: Vec<(String, Value)> = Vec::new();
        push_entry(&mut order, "property", Value::text("receivedAt"));
        push_entry(&mut order, "isAscending", Value::Bool(false));
        let ghost order_json = seq![
            ("property"@, Json::Str("receivedAt"@)),
            ("isAscending"@, Json::Bool(false)),
        ];
        assert(crate::value::entry_views(order@) =~= order_json);
        let mut sort: Vec<Value> = Vec::new();
        push_item(&mut sort, Value::Object(order));
        assert(views(sort@) =~= seq![Json::Object(order_json)]);
        let mut e = account_entries(&self.account_id);
        push_entry(&mut e, "filter", object1("inMailbox", Value::text(mailbox_id)));
        push_entry(&mut e, "sort", Value::Array(sort));
        push_entry(&mut e, "collapseThreads", Value::Bool(true));
        push_entry(&mut e, "position", Value::UInt(position));
        push_entry(&mut e, "limit", Value::UInt(limit));
        assert(crate::value::entry_views(e@) =~= seq![("accountId"@, Json::Str(self.account_id@))]
            + seq![
            ("filter"@, Json::Object(seq![("inMailbox"@, Json::Str(mailbox_id@))])),
            ("sort"@, Json::Array(seq![Json::Object(order_json)])),
            ("collapseThreads"@, Json::Bool(true)),
            ("position"@, Json::Number(position as int)),
            ("limit"@, Json::Number(limit as int)),
        ]);
        batch1("Email/query", e, "q0")
    }

    /// The calls that fetch the emails `ids` with the given properties;
    /// nothing to send when there are no ids.
    pub fn get_emails(&self, ids: &[String], properties: &[&str]) -> (r: Option<Vec<Invocation>>)
        ensures
            ids@.len() == 0 ==> r is None,
            ids@.len() > 0 ==> (r matches Some(calls) && calls_view(calls@) == seq![
                account_call(
                    "Email/get"@,
                    self.account_id@,
                    seq![
                        ("ids"@, Json::Array(ids@.map_values(|s: String| Json::Str(s@)))),
                        ("properties"@, Json::Array(properties@.map_values(|s: &str| Json::Str(s@)))),
                    ],
                    "e0"@,
                ),
            ]),
    {
        if ids.len() == 0 {
            return None;
        }
        let mut e = account_entries(&self.account_id);
        push_entry(&mut e, "ids", strings_to_value(ids));
        push_entry(&mut e, "properties", strs_to_value(properties));
        assert(crate::value::entry_views(e@) =~= seq![("accountId"@, Json::Str(self.account_id@))]
            + seq![
            ("ids"@, Json::Array(ids@.map_values(|s: String| Json::Str(s@)))),
            ("properties"@, Json::Array(properties@.map_values(|s: &str| Json::Str(s@)))),
        ]);
        Some(batch1("Email/get", e, "e0"))
    }

    /// The calls that fetch the thread `thread_id`.
    pub fn get_thread(&self, thread_id: &str) -> (r: Vec<Invocation>)
        ensures
            calls_view(r@) == seq![
                account_call(
                    "Thread/get"@,
                    self.account_id@,
                    seq![("ids"@, Json::Array(seq![Json::Str(thread_id@)]))],
                    "t0"@,
                ),
            ],
    {
        let mut ids: Vec<Value> = Vec::new();
        push_item(&mut ids, Value::text(thread_id));
        assert(views(ids@) =~= seq![Json::Str(thread_id@)]);
        let mut e = account_entries(&self.account_id);
        push_entry(&mut e, "ids", Value::Array(ids));
        assert(crate::value::entry_views(e@) =~= seq![("accountId"@, Json::Str(self.account_id@))]
            + seq![("ids"@, Json::Array(seq![Json::Str(thread_id@)]))]);
        batch1("Thread/get", e, "t0")
    }

    /// The calls that fetch the emails `ids` in full, with the content of
    /// their text bodies; nothing to send when there are no ids.
    pub fn get_email_bodies(&self, ids: &[String]) -> (r: Option<Vec<Invocation>>)
        ensures
            ids@.len() == 0 ==> r is None,
            ids@.len() > 0 ==> (r matches Some(calls) && calls_view(calls@) == seq![
                account_call(
                    "Email/get"@,
                    self.account_id@,
                    seq![
                        ("ids"@, Json::Array(ids@.map_values(|s: String| Json::Str(s@)))),
                        ("properties"@, texts_array(body_properties())),
                        ("fetchTextBodyValues"@, Json::Bool(true)),
                    ],
                    "eb0"@,
                ),
            ]),
    {
        if ids.len() == 0 {
            return None;
        }
        let props: [&str; 18] = [
            "id", "blobId", "threadId", "mailboxIds", "keywords", "from", "to", "cc", "bcc",
            "replyTo", "subject", "sentAt", "receivedAt", "hasAttachment", "preview", "textBody",
            "htmlBody", "bodyValues",
        ];
        let properties = strs_to_value(props.as_slice());
        let mut e = account_entries(&self.account_id);
        push_entry(&mut e, "ids", strings_to_value(ids));
        push_entry(&mut e, "properties", properties);
        push_entry(&mut e, "fetchTextBodyValues", Value::Bool(true));
        proof {
            assert(props@.map_values(|s: &str| Json::Str(s@)) =~= body_properties().map_values(
                |s: Seq<char>| Json::Str(s),
            ));
        }
        assert(crate::value::entry_views(e@) =~= seq![("accountId"@, Json::Str(self.account_id@))]
            + seq![
            ("ids"@, Json::Array(ids@.map_values(|s: String| Json::Str(s@)))),
            ("properties"@, texts_array(body_properties())),
            ("fetchTextBodyValues"@, Json::Bool(true)),
        ]);
        Some(batch1("Email/get", e, "eb0"))
    }

    /// The calls that fetch all of the account's sending identities.
    pub fn get_identities(&self) -> (r: Vec<Invocation>)
        ensures
            calls_view(r@) == seq![
                account_call("Identity/get"@, self.account_id@, seq![("ids"@, Json::Null)], "i0"@),
            ],
    {
        let mut e = account_entries(&self.account_id);
        push_entry(&mut e, "ids", Value::Null);
        assert(crate::value::entry_views(e@) =~= seq![("accountId"@, Json::Str(self.account_id@))]
            + seq![("ids"@, Json::Null)]);
        batch1("Identity/get", e, "i0")
    }
}


/// The items of the `list` of the first response, when it has one.
pub fn first_list(resp: &JmapResponse) -> (r: Option<&Vec<Value>>)
    ensures
        match r {
            Some(a) => response_list(resp@) == Some(views(a@)),
            None => response_list(resp@) is None,
        },
{
    if resp.method_responses.len() == 0 {
        return None;
    }
    let ghost m = resp@;
    assert(m.calls[0] == resp.method_responses@[0]@);
    match resp.method_responses[0].args.get("list") {
        Some(Value::Array(a)) => Some(a),
        _ => None,
    }
}

/// The mailboxes that the items `a` encode, when every one reads.
pub fn mailboxes_in(a: &Vec<Value>) -> (r: Option<Vec<Mailbox>>)
    ensures
        match r {
            Some(l) => list_of(Some(Json::Array(views(a@))), |j: Json| mailbox_of(j)) == Some(
                l@.map_values(|x: Mailbox| x@),
            ),
            None => list_of(Some(Json::Array(views(a@))), |j: Json| mailbox_of(j)) is None,
        },
{
    proof {
        lemma_views(a@);
    }
    let ghost items = views(a@);
    let mut out: Vec<Mailbox> = Vec::new();
    let mut i: usize = 0;
    while i < a.len()
        invariant
            items == views(a@),
            items.len() == a@.len(),
            forall|j: int| 0 <= j < a@.len() ==> #[trigger] items[j] == a@[j]@,
            i <= a.len(),
            out@.len() == i,
            forall|j: int| 0 <= j < i ==> (#[trigger] mailbox_of(items[j])) is Some,
            forall|j: int| 0 <= j < i ==> Some(#[trigger] out@[j]@) == mailbox_of(items[j]),
        decreases a.len() - i,
    {
        match Mailbox::from_value(&a[i]) {
            Some(x) => out.push(x),
            None => {
                assert(mailbox_of(items[i as int]) is None);
                return None;
            },
        }
        i += 1;
    }
    proof {
        assert(out@.map_values(|x: Mailbox| x@) =~= items.map_values(|x: Json| mailbox_of(x)->0));
    }
    Some(out)
}

/// The emails that the items `a` encode, when every one reads.
pub fn emails_in(a: &Vec<Value>) -> (r: Option<Vec<Email>>)
    ensures
        match r {
            Some(l) => list_of(Some(Json::Array(views(a@))), |j: Json| email_of(j)) == Some(
                l@.map_values(|x: Email| x@),
            ),
            None => list_of(Some(Json::Array(views(a@))), |j: Json| email_of(j)) is None,
        },
{
    proof {
        lemma_views(a@);
    }
    let ghost items = views(a@);
    let mut out: Vec<Email> = Vec::new();
    let mut i: usize = 0;
    while i < a.len()
        invariant
            items == views(a@),
            items.len() == a@.len(),
            forall|j: int| 0 <= j < a@.len() ==> #[trigger] items[j] == a@[j]@,
            i <= a.len(),
            out@.len() == i,
            forall|j: int| 0 <= j < i ==> (#[trigger] email_of(items[j])) is Some,
            forall|j: int| 0 <= j < i ==> Some(#[trigger] out@[j]@) == email_of(items[j]),
        decreases a.len() - i,
    {
        match Email::from_value(&a[i]) {
            Some(x) => out.push(x),
            None => {
                assert(email_of(items[i as int]) is None);
                return None;
            },
        }
        i += 1;
    }
    proof {
        assert(out@.map_values(|x: Email| x@) =~= items.map_values(|x: Json| email_of(x)->0));
    }
    Some(out)
}

/// The identities that the items `a` encode, when every one reads.
pub fn identities_in(a: &Vec<Value>) -> (r: Option<Vec<Identity>>)
    ensures
        match r {
            Some(l) => list_of(Some(Json::Array(views(a@))), |j: Json| identity_of(j)) == Some(
                l@.map_values(|x: Identity| x@),
            ),
            None => list_of(Some(Json::Array(views(a@))), |j: Json| identity_of(j)) is None,
        },
{
    proof {
        lemma_views(a@);
    }
    let ghost items = views(a@);
    let mut out: Vec<Identity> = Vec::new();
    let mut i: usize = 0;
    while i < a.len()
        invariant
            items == views(a@),
            items.len() == a@.len(),
            forall|j: int| 0 <= j < a@.len() ==> #[trigger] items[j] == a@[j]@,
            i <= a.len(),
            out@.len() == i,
            forall|j: int| 0 <= j < i ==> (#[trigger] identity_of(items[j])) is Some,
            forall|j: int| 0 <= j < i ==> Some(#[trigger] out@[j]@) == identity_of(items[j]),
        decreases a.len() - i,
    {
        match Identity::from_value(&a[i]) {
            Some(x) => out.push(x),
            None => {
                assert(identity_of(items[i as int]) is None);
                return None;
            },
        }
        i += 1;
    }
    proof {
        assert(out@.map_values(|x: Identity| x@) =~= items.map_values(|x: Json| identity_of(x)->0));
    }
    Some(out)
}

/// Whether more results follow a page of `returned` results at `position`,
/// out of `total`.
pub fn has_more(position: u64, returned: u64, total: u64) -> (r: bool)
    ensures
        r == more_after(position as int, returned as int, total as int),
{
    (position as u128) + (returned as u128) < total as u128
}

impl JmapClient {
    /// The mailboxes in a response to [`JmapClient::get_mailboxes`].
    pub fn mailboxes_from(resp: &JmapResponse) -> (r: Result<Vec<Mailbox>, JmapError>)
        ensures
            response_list(resp@) is None ==> r matches Err(JmapError::Api(_)),
            response_list(resp@) matches Some(a) ==> (match list_of(
                Some(Json::Array(a)),
                |j: Json| mailbox_of(j),
            ) {
                Some(l) => r matches Ok(v) && v@.map_values(|x: Mailbox| x@) == l,
                None => r matches Err(JmapError::Json(_)),
            }),
    {
        let a = match first_list(resp) {
            Some(a) => a,
            None => return Err(JmapError::Api("missing list in Mailbox/get response".to_owned())),
        };
        match mailboxes_in(a) {
            Some(l) => Ok(l),
            None => Err(JmapError::Json("unreadable mailbox".to_owned())),
        }
    }

    /// The emails in a response to [`JmapClient::get_emails`] or
    /// [`JmapClient::get_email_bodies`].
    pub fn emails_from(resp: &JmapResponse) -> (r: Result<Vec<Email>, JmapError>)
        ensures
            response_list(resp@) is None ==> r matches Err(JmapError::Api(_)),
            response_list(resp@) matches Some(a) ==> (match list_of(
                Some(Json::Array(a)),
                |j: Json| email_of(j),
            ) {
                Some(l) => r matches Ok(v) && v@.map_values(|x: Email| x@) == l,
                None => r matches Err(JmapError::Json(_)),
            }),
    {
        let a = match first_list(resp) {
            Some(a) => a,
            None => return Err(JmapError::Api("missing list in Email/get response".to_owned())),
        };
        match emails_in(a) {
            Some(l) => Ok(l),
            None => Err(JmapError::Json("unreadable email".to_owned())),
        }
    }

    /// The identities in a response to [`JmapClient::get_identities`].
    pub fn identities_from(resp: &JmapResponse) -> (r: Result<Vec<Identity>, JmapError>)
        ensures
            response_list(resp@) is None ==> r matches Err(JmapError::Api(_)),
            response_list(resp@) matches Some(a) ==> (match list_of(
                Some(Json::Array(a)),
                |j: Json| identity_of(j),
            ) {
                Some(l) => r matches Ok(v) && v@.map_values(|x: Identity| x@) == l,
                None => r matches Err(JmapError::Json(_)),
            }),
    {
        let a = match first_list(resp) {
            Some(a) => a,
            None => return Err(JmapError::Api("missing list in Identity/get response".to_owned())),
        };
        match identities_in(a) {
            Some(l) => Ok(l),
            None => Err(JmapError::Json("unreadable identity".to_owned())),
        }
    }

    /// The thread in a response to [`JmapClient::get_thread`]. An empty list
    /// means that there is no such thread.
    pub fn thread_from(resp: &JmapResponse) -> (r: Result<Thread, JmapError>)
        ensures
            response_list(resp@) is None ==> r matches Err(JmapError::Api(_)),
            response_list(resp@) matches Some(a) ==> (if a.len() == 0 {
                r == Err::<Thread, JmapError>(JmapError::ThreadNotFound)
            } else {
                match thread_of(a[0]) {
                    Some(t) => r matches Ok(x) && x@ == t,
                    None => r matches Err(JmapError::Json(_)),
                }
            }),
    {
        let a = match first_list(resp) {
            Some(a) => a,
            None => return Err(JmapError::Api("missing list in Thread/get response".to_owned())),
        };
        if a.len() == 0 {
            return Err(JmapError::ThreadNotFound);
        }
        proof {
            lemma_views(a@);
        }
        match Thread::from_value(&a[0]) {
            Some(t) => Ok(t),
            None => Err(JmapError::Json("unreadable thread".to_owned())),
        }
    }

    /// The ids and the total in a response to [`JmapClient::query_emails`].
    /// Ids that are not strings are skipped; a missing list reads as empty and
    /// a missing total as zero.
    pub fn query_from(resp: &JmapResponse) -> (r: Result<(Vec<String>, u64), JmapError>)
        ensures
            first_args(resp@) is None ==> r matches Err(JmapError::Api(_)),
            first_args(resp@) matches Some(args) ==> (r matches Ok(p) && texts_view(p.0@)
                == query_ids(args) && p.1 as int == query_total(args)),
    {
        if resp.method_responses.len() == 0 {
            return Err(JmapError::Api("missing Email/query response".to_owned()));
        }
        let args = &resp.method_responses[0].args;
        assert(resp@.calls[0] == resp.method_responses@[0]@);
        let mut ids: Vec<String> = Vec::new();
        match args.get("ids") {
            Some(Value::Array(a)) => {
                proof {
                    lemma_views(a@);
                }
                let ghost items = views(a@);
                let mut i: usize = 0;
                assert(items.subrange(0, 0) =~= Seq::<Json>::empty());
                while i < a.len()
                    invariant
                        items == views(a@),
                        items.len() == a@.len(),
                        forall|j: int| 0 <= j < a@.len() ==> #[trigger] items[j] == a@[j]@,
                        i <= a.len(),
                        texts_view(ids@) == strings_in(items.subrange(0, i as int)),
                    decreases a.len() - i,
                {
                    assert(items.subrange(0, i + 1).drop_last() =~= items.subrange(0, i as int));
                    match &a[i] {
                        Value::Str(s) => {
                            ids.push(s.clone());
                            assert(texts_view(ids@) =~= strings_in(items.subrange(0, i as int)).push(
                                s@,
                            ));
                        },
                        _ => {},
                    }
                    i += 1;
                }
                assert(items.subrange(0, a@.len() as int) =~= items);
            },
            _ => {
                assert(texts_view(ids@) =~= Seq::<Seq<char>>::empty());
            },
        }
        let total = match args.get("total") {
            Some(t) => match t.as_u64() {
                Some(n) => n,
                None => 0,
            },
            None => 0,
        };
        Ok((ids, total))
    }
}

} // verus!
