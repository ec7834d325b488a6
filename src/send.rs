//! Sending an email: one request that creates a draft and submits it.
use vstd::prelude::*;
use vstd::string::StringExecFns;

use crate::client::{JmapClient, is_method_error, method_error};
use crate::error::JmapError;
use crate::mail::{AddressView, EmailAddress};
use crate::ops::account_call;
use crate::protocol::{Call, Invocation, JmapResponse, calls_view};
use crate::text::same_text;
use crate::value::{Json, Value, entry_views, push_entry, push_item, views};

verus! {

/// The wire form of an address; a missing name is null.
pub open spec fn address_json(a: AddressView) -> Json {
    Json::Object(
        seq![
            ("name"@, match a.name {
                Some(n) => Json::Str(n),
                None => Json::Null,
            }),
            ("email"@, Json::Str(a.email)),
        ],
    )
}

/// The models of a list of addresses.
pub open spec fn addrs(l: Seq<EmailAddress>) -> Seq<AddressView> {
    l.map_values(|a: EmailAddress| a@)
}

/// The wire form of a list of addresses.
pub open spec fn addresses_json(l: Seq<AddressView>) -> Json {
    Json::Array(l.map_values(|a: AddressView| address_json(a)))
}

/// The draft to create: in the drafts mailbox, marked seen and draft, with
/// a plain-text body. Copy and blind-copy recipients are there only when
/// there are some.
pub open spec fn draft_json(
    drafts: Seq<char>,
    from: Seq<AddressView>,
    to: Seq<AddressView>,
    cc: Seq<AddressView>,
    bcc: Seq<AddressView>,
    subject: Seq<char>,
    body: Seq<char>,
) -> Json {
    let base = seq![
        ("mailboxIds"@, Json::Object(seq![(drafts, Json::Bool(true))])),
        ("from"@, addresses_json(from)),
        ("to"@, addresses_json(to)),
        ("subject"@, Json::Str(subject)),
        ("keywords"@, Json::Object(seq![("$seen"@, Json::Bool(true)), ("$draft"@, Json::Bool(true))])),
        ("textBody"@, Json::Array(seq![Json::Object(seq![
            ("partId"@, Json::Str("body"@)),
            ("type"@, Json::Str("text/plain"@)),
        ])])),
        ("bodyValues"@, Json::Object(seq![("body"@, Json::Object(seq![("value"@, Json::Str(body))]))])),
    ];
    let with_cc = if cc.len() > 0 {
        base.push(("cc"@, addresses_json(cc)))
    } else {
        base
    };
    let with_bcc = if bcc.len() > 0 {
        with_cc.push(("bcc"@, addresses_json(bcc)))
    } else {
        with_cc
    };
    Json::Object(with_bcc)
}

/// The submission of the draft, by reference to its creation id, and the
/// change to apply to the email once it is sent: out of drafts, into sent,
/// no longer a draft.
pub open spec fn submission_entries(identity: Seq<char>, drafts: Seq<char>, sent: Seq<char>) -> Seq<
    (Seq<char>, Json),
> {
    seq![
        ("create"@, Json::Object(seq![("sub0"@, Json::Object(seq![
            ("identityId"@, Json::Str(identity)),
            ("emailId"@, Json::Ref("emailToSend"@)),
        ]))])),
        ("onSuccessUpdateEmail"@, Json::Object(seq![("#emailToSend"@, Json::Object(seq![
            ("mailboxIds/"@ + drafts, Json::Null),
            ("mailboxIds/"@ + sent, Json::Bool(true)),
            ("keywords/$draft"@, Json::Null),
        ]))])),
    ]
}

/// The error entry under `id` in the `notCreated` object of a response named `method`.
pub open spec fn not_created(c: Call, method: Seq<char>, id: Seq<char>) -> Option<Json> {
    if c.name == method {
        match c.args.get("notCreated"@) {
            Some(nc) => nc.get(id),
            None => None,
        }
    } else {
        None
    }
}

/// The error entry, if any, that a response reports for the draft or for its submission.
pub open spec fn send_failure(c: Call) -> Option<Json> {
    match not_created(c, "Email/set"@, "emailToSend"@) {
        Some(e) => Some(e),
        None => not_created(c, "EmailSubmission/set"@, "sub0"@),
    }
}

/// The first error entry that the responses report for the draft or its submission.
pub open spec fn send_outcome(calls: Seq<Call>) -> Option<Json>
    decreases calls.len(),
{
    if calls.len() == 0 {
        None
    } else {
        match send_failure(calls[0]) {
            Some(e) => Some(e),
            None => send_outcome(calls.subrange(1, calls.len() as int)),
        }
    }
}

/// A send is never taken as done when any response reports that the draft,
/// or its submission, was not created: whichever of the two failed, the
/// outcome is a failure.
pub proof fn lemma_any_not_created_fails(calls: Seq<Call>, i: int)
    requires
        0 <= i < calls.len(),
        not_created(calls[i], "Email/set"@, "emailToSend"@) is Some || not_created(
            calls[i],
            "EmailSubmission/set"@,
            "sub0"@,
        ) is Some,
    ensures
        send_outcome(calls) is Some,
    decreases i,
{
    if send_failure(calls[0]) is None {
        let rest = calls.subrange(1, calls.len() as int);
        assert(rest[i - 1] == calls[i]);
        lemma_any_not_created_fails(rest, i - 1);
    }
}

/// The wire form of an address.
fn address_value(a: &EmailAddress) -> (r: Value)
    ensures
        r@ == address_json(a@),
{
    let name = match &a.name {
        Some(n) => Value::Str(n.clone()),
        None => Value::Null,
    };
    let mut e: Vec<(String, Value)> = Vec::new();
    push_entry(&mut e, "name", name);
    push_entry(&mut e, "email", Value::Str(a.email.clone()));
    assert(entry_views(e@) =~= address_json(a@)->Object_0);
    Value::Object(e)
}

/// The wire form of a list of addresses.
fn addresses_value(l: &[EmailAddress]) -> (r: Value)
    ensures
        r@ == addresses_json(addrs(l@)),
{
    let mut out: Vec<Value> = Vec::new();
    let mut i: usize = 0;
    while i < l.len()
        invariant
            i <= l.len(),
            views(out@) == addrs(l@.subrange(0, i as int)).map_values(
                |a: AddressView| address_json(a),
            ),
        decreases l.len() - i,
    {
        push_item(&mut out, address_value(&l[i]));
        assert(addrs(l@.subrange(0, i + 1)).map_values(|a: AddressView| address_json(a))
            =~= addrs(l@.subrange(0, i as int)).map_values(|a: AddressView| address_json(a)).push(
            address_json(l@[i as int]@),
        ));
        i += 1;
    }
    assert(l@.subrange(0, l@.len() as int) =~= l@);
    Value::Array(out)
}

/// `prefix` followed by `s`.
fn joined(prefix: &str, s: &str) -> (r: String)
    ensures
        r@ == prefix@ + s@,
{
    let mut r = prefix.to_owned();
    r.append(s);
    r
}

impl JmapClient {
    /// The calls that send an email: one creates the draft under the creation
    /// id `emailToSend`, the other submits it by reference to that id and, once
    /// sent, moves it from drafts to sent and clears its draft flag.
    pub fn send_email(
        &self,
        identity_id: &str,
        from: &[EmailAddress],
        to: &[EmailAddress],
        cc: &[EmailAddress],
        bcc: &[EmailAddress],
        subject: &str,
        body: &str,
        drafts_mailbox_id: &str,
        sent_mailbox_id: &str,
    ) -> (r: Vec<Invocation>)
        ensures
            calls_view(r@) == seq![
                account_call(
                    "Email/set"@,
                    self.account_id@,
                    seq![("create"@, Json::Object(seq![("emailToSend"@, draft_json(
                        drafts_mailbox_id@,
                        addrs(from@),
                        addrs(to@),
                        addrs(cc@),
                        addrs(bcc@),
                        subject@,
                        body@,
                    ))]))],
                    "s0"@,
                ),
                account_call(
                    "EmailSubmission/set"@,
                    self.account_id@,
                    submission_entries(identity_id@, drafts_mailbox_id@, sent_mailbox_id@),
                    "s1"@,
                ),
            ],
    {
        // The draft.
        let mut boxes: Vec<(String, Value)> = Vec::new();
        push_entry(&mut boxes, drafts_mailbox_id, Value::Bool(true));
        let mut keywords: Vec<(String, Value)> = Vec::new();
        push_entry(&mut keywords, "$seen", Value::Bool(true));
        push_entry(&mut keywords, "$draft", Value::Bool(true));
        let mut part: Vec<(String, Value)> = Vec::new();
        push_entry(&mut part, "partId", Value::text("body"));
        push_entry(&mut part, "type", Value::text("text/plain"));
        let ghost part_json = seq![
            ("partId"@, Json::Str("body"@)),
            ("type"@, Json::Str("text/plain"@)),
        ];
        assert(entry_views(part@) =~= part_json);
        let mut parts: Vec<Value> = Vec::new();
        push_item(&mut parts, Value::Object(part));
        let mut content: Vec<(String, Value)> = Vec::new();
        push_entry(&mut content, "value", Value::text(body));
        let mut values: Vec<(String, Value)> = Vec::new();
        push_entry(&mut values, "body", Value::Object(content));
        assert(entry_views(boxes@) =~= seq![(drafts_mailbox_id@, Json::Bool(true))]);
        assert(entry_views(keywords@) =~= seq![
            ("$seen"@, Json::Bool(true)),
            ("$draft"@, Json::Bool(true)),
        ]);
        assert(entry_views(content@) =~= seq![("value"@, Json::Str(body@))]);
        assert(entry_views(values@) =~= seq![
            ("body"@, Json::Object(seq![("value"@, Json::Str(body@))])),
        ]);
        let mut draft: Vec<(String, Value)> = Vec::new();
        push_entry(&mut draft, "mailboxIds", Value::Object(boxes));
        push_entry(&mut draft, "from", addresses_value(from));
        push_entry(&mut draft, "to", addresses_value(to));
        push_entry(&mut draft, "subject", Value::text(subject));
        push_entry(&mut draft, "keywords", Value::Object(keywords));
        push_entry(&mut draft, "textBody", Value::Array(parts));
        push_entry(&mut draft, "bodyValues", Value::Object(values));
        proof {
            assert(views(seq![]).push(Json::Object(part_json)) =~= seq![Json::Object(part_json)]);
        }
        let ghost base = entry_views(draft@);
        assert(base =~= draft_json(
            drafts_mailbox_id@,
            addrs(from@),
            addrs(to@),
            Seq::empty(),
            Seq::empty(),
            subject@,
            body@,
        )->Object_0);
        if cc.len() > 0 {
            push_entry(&mut draft, "cc", addresses_value(cc));
        }
        if bcc.len() > 0 {
            push_entry(&mut draft, "bcc", addresses_value(bcc));
        }
        assert(entry_views(draft@) =~= draft_json(
            drafts_mailbox_id@,
            addrs(from@),
            addrs(to@),
            addrs(cc@),
            addrs(bcc@),
            subject@,
            body@,
        )->Object_0);
        let mut create: Vec<(String, Value)> = Vec::new();
        push_entry(&mut create, "emailToSend", Value::Object(draft));
        let mut set_args: Vec<(String, Value)> = Vec::new();
        push_entry(&mut set_args, "accountId", Value::Str(self.account_id.clone()));
        push_entry(&mut set_args, "create", Value::Object(create));

        // Its submission.
        let mut submission: Vec<(String, Value)> = Vec::new();
        push_entry(&mut submission, "identityId", Value::text(identity_id));
        push_entry(&mut submission, "emailId", Value::Ref("emailToSend".to_owned()));
        let mut sub_create: Vec<(String, Value)> = Vec::new();
        push_entry(&mut sub_create, "sub0", Value::Object(submission));
        let mut update: Vec<(String, Value)> = Vec::new();
        push_entry(&mut update, joined("mailboxIds/", drafts_mailbox_id).as_str(), Value::Null);
        push_entry(&mut update, joined("mailboxIds/", sent_mailbox_id).as_str(), Value::Bool(true));
        push_entry(&mut update, "keywords/$draft", Value::Null);
        let mut on_success: Vec<(String, Value)> = Vec::new();
        push_entry(&mut on_success, "#emailToSend", Value::Object(update));
        let mut submit_args: Vec<(String, Value)> = Vec::new();
        push_entry(&mut submit_args, "accountId", Value::Str(self.account_id.clone()));
        push_entry(&mut submit_args, "create", Value::Object(sub_create));
        push_entry(&mut submit_args, "onSuccessUpdateEmail", Value::Object(on_success));

        let ghost first = account_call(
            "Email/set"@,
            self.account_id@,
            seq![("create"@, Json::Object(seq![("emailToSend"@, draft_json(
                drafts_mailbox_id@,
                addrs(from@),
                addrs(to@),
                addrs(cc@),
                addrs(bcc@),
                subject@,
                body@,
            ))]))],
            "s0"@,
        );
        let ghost second = account_call(
            "EmailSubmission/set"@,
            self.account_id@,
            submission_entries(identity_id@, drafts_mailbox_id@, sent_mailbox_id@),
            "s1"@,
        );
        assert(entry_views(create@) =~= seq![("emailToSend"@, first.args->Object_0[1].1->Object_0[0].1)]);
        assert(entry_views(set_args@) =~= first.args->Object_0);
        assert(entry_views(submission@) =~= seq![
            ("identityId"@, Json::Str(identity_id@)),
            ("emailId"@, Json::Ref("emailToSend"@)),
        ]);
        assert(entry_views(sub_create@) =~= second.args->Object_0[1].1->Object_0);
        assert(entry_views(update@) =~= seq![
            ("mailboxIds/"@ + drafts_mailbox_id@, Json::Null),
            ("mailboxIds/"@ + sent_mailbox_id@, Json::Bool(true)),
            ("keywords/$draft"@, Json::Null),
        ]);
        assert(entry_views(on_success@) =~= second.args->Object_0[2].1->Object_0);
        assert(entry_views(submit_args@) =~= second.args->Object_0);

        let mut calls: Vec<Invocation> = Vec::new();
        calls.push(
            Invocation {
                name: "Email/set".to_owned(),
                args: Value::Object(set_args),
                call_id: "s0".to_owned(),
            },
        );
        calls.push(
            Invocation {
                name: "EmailSubmission/set".to_owned(),
                args: Value::Object(submit_args),
                call_id: "s1".to_owned(),
            },
        );
        assert(calls_view(calls@) =~= seq![first, second]);
        calls
    }

    /// Whether a send went through: it did unless a response reports that the
    /// draft or its submission was not created, in which case the first such
    /// report is the error.
    #[verifier::loop_isolation(false)]
    pub fn send_result(resp: &JmapResponse) -> (r: Result<(), JmapError>)
        ensures
            match send_outcome(resp@.calls) {
                None => r is Ok,
                Some(e) => r matches Err(x) && is_method_error(x, e),
            },
    {
        let ghost calls = resp@.calls;
        let mut i: usize = 0;
        assert(calls.subrange(0, calls.len() as int) =~= calls);
        while i < resp.method_responses.len()
            invariant
                i <= resp.method_responses.len(),
                calls.len() == resp.method_responses@.len(),
                send_outcome(calls) == send_outcome(calls.subrange(i as int, calls.len() as int)),
            decreases resp.method_responses.len() - i,
        {
            let inv = &resp.method_responses[i];
            let ghost rest = calls.subrange(i as int, calls.len() as int);
            assert(rest[0] == inv@);
            assert(rest.subrange(1, rest.len() as int) =~= calls.subrange(i + 1, calls.len() as int));
            if let Some(e) = set_error(inv, "Email/set", "emailToSend") {
                return Err(method_error(e));
            }
            if let Some(e) = set_error(inv, "EmailSubmission/set", "sub0") {
                return Err(method_error(e));
            }
            i += 1;
        }
        Ok(())
    }
}

/// The error entry under `id` in the `notCreated` object of `inv`, when it is named `method`.
fn set_error<'a>(inv: &'a Invocation, method: &str, id: &str) -> (r: Option<&'a Value>)
    ensures
        match r {
            Some(e) => not_created(inv@, method@, id@) == Some(e@),
            None => not_created(inv@, method@, id@) is None,
        },
{
    if !same_text(inv.name.as_str(), method) {
        return None;
    }
    match inv.args.get("notCreated") {
        Some(nc) => nc.get(id),
        None => None,
    }
}

} // verus!
