//! The mail records that method responses carry.
use vstd::prelude::*;

use crate::decode::{
    opt_view, texts_view, flag_pairs_view, req_text, opt_text, flag, opt_flag, count, small_count,
    opt_count, list_of, opt_list_of, opt_map_of, text_item, flag_item, get_req_text, get_opt_text,
    get_flag, get_opt_flag, get_count, get_small_count, get_opt_count, get_text_list,
    get_opt_flag_map,
};
use crate::value::{Json, Value, views, lemma_views, entry_views, lemma_entry_views};

verus! {

/// A mailbox. Mailboxes form a tree through `parent_id`.
#[derive(Debug, Clone, PartialEq)]
pub struct Mailbox {
    pub id: String,
    pub name: String,
    pub parent_id: Option<String>,
    /// A well-known purpose such as `inbox` or `drafts`.
    pub role: Option<String>,
    pub sort_order: u32,
    pub total_emails: u64,
    pub unread_emails: u64,
    pub total_threads: u64,
    pub unread_threads: u64,
    pub my_rights: Option<MailboxRights>,
    pub is_subscribed: Option<bool>,
}

/// What the user may do with a mailbox.
#[derive(Debug, Clone, PartialEq)]
pub struct MailboxRights {
    pub may_read_items: bool,
    pub may_add_items: bool,
    pub may_remove_items: bool,
    pub may_set_seen: bool,
    pub may_set_keywords: bool,
    pub may_create_child: bool,
    pub may_rename: bool,
    pub may_delete: bool,
    pub may_submit: bool,
}

/// An email, with as many of its properties as were asked for.
#[derive(Debug, Clone, PartialEq)]
pub struct Email {
    pub id: Option<String>,
    pub blob_id: Option<String>,
    pub thread_id: Option<String>,
    /// The mailboxes the email is in.
    pub mailbox_ids: Option<Vec<(String, bool)>>,
    /// Its flags, such as `$seen`.
    pub keywords: Option<Vec<(String, bool)>>,
    pub size: Option<u64>,
    pub received_at: Option<String>,
    pub from: Option<Vec<EmailAddress>>,
    pub to: Option<Vec<EmailAddress>>,
    pub cc: Option<Vec<EmailAddress>>,
    pub bcc: Option<Vec<EmailAddress>>,
    pub reply_to: Option<Vec<EmailAddress>>,
    pub subject: Option<String>,
    pub sent_at: Option<String>,
    pub has_attachment: Option<bool>,
    pub preview: Option<String>,
    pub text_body: Option<Vec<EmailBodyPart>>,
    pub html_body: Option<Vec<EmailBodyPart>>,
    /// The contents of body parts, by part id; present only when asked for.
    pub body_values: Option<Vec<(String, EmailBodyValue)>>,
}

/// A mail address with an optional display name.
#[derive(Debug, Clone, PartialEq)]
pub struct EmailAddress {
    pub name: Option<String>,
    pub email: String,
}

/// One part of an email's body, which refers to its content by blob or part id.
#[derive(Debug, Clone, PartialEq)]
pub struct EmailBodyPart {
    pub part_id: Option<String>,
    pub blob_id: Option<String>,
    pub size: Option<u64>,
    pub type_: Option<String>,
    pub name: Option<String>,
    pub charset: Option<String>,
    pub disposition: Option<String>,
}

/// The decoded content of a body part.
#[derive(Debug, Clone, PartialEq)]
pub struct EmailBodyValue {
    pub value: String,
    pub is_encoding_problem: Option<bool>,
    pub is_truncated: Option<bool>,
}

/// An identity the user may send mail as.
#[derive(Debug, Clone, PartialEq)]
pub struct Identity {
    pub id: String,
    pub name: Option<String>,
    pub email: String,
    pub reply_to: Option<Vec<EmailAddress>>,
    pub bcc: Option<Vec<EmailAddress>>,
    pub text_signature: Option<String>,
    pub html_signature: Option<String>,
    pub may_delete: Option<bool>,
}

/// A conversation: the ids of its emails, oldest first.
#[derive(Debug, Clone, PartialEq)]
pub struct Thread {
    pub id: String,
    pub email_ids: Vec<String>,
}

/// Why the server did not create an object that a call asked for.
#[derive(Debug, Clone, PartialEq)]
pub struct SetError {
    pub type_: String,
    pub description: Option<String>,
}

/// A reference to a value in the result of an earlier call of the same request.
#[derive(Debug, Clone, PartialEq)]
pub struct ResultReference {
    pub result_of: String,
    pub name: String,
    pub path: String,
}

pub open spec fn opt_addresses_view(o: Option<Vec<EmailAddress>>) -> Option<Seq<AddressView>> {
    match o {
        Some(l) => Some(l@.map_values(|a: EmailAddress| a@)),
        None => None,
    }
}

pub open spec fn opt_body_parts_view(o: Option<Vec<EmailBodyPart>>) -> Option<Seq<BodyPartView>> {
    match o {
        Some(l) => Some(l@.map_values(|a: EmailBodyPart| a@)),
        None => None,
    }
}

pub open spec fn opt_flag_pairs_view(o: Option<Vec<(String, bool)>>) -> Option<Seq<(Seq<char>, bool)>> {
    match o {
        Some(l) => Some(flag_pairs_view(l@)),
        None => None,
    }
}

pub open spec fn opt_body_values_view(o: Option<Vec<(String, EmailBodyValue)>>) -> Option<
    Seq<(Seq<char>, BodyValueView)>,
> {
    match o {
        Some(l) => Some(l@.map_values(|p: (String, EmailBodyValue)| (p.0@, p.1@))),
        None => None,
    }
}

pub open spec fn opt_rights_view(o: Option<MailboxRights>) -> Option<RightsView> {
    match o {
        Some(r) => Some(r@),
        None => None,
    }
}

/// Rights that may be absent or null.
pub open spec fn opt_rights(f: Option<Json>) -> Option<Option<RightsView>> {
    match f {
        None => Some(None),
        Some(Json::Null) => Some(None),
        Some(j) => match rights_of(j) {
            Some(r) => Some(Some(r)),
            None => None,
        },
    }
}

pub fn get_opt_rights(v: &Value, key: &str) -> (r: Option<Option<MailboxRights>>)
    ensures
        match r {
            Some(o) => opt_rights(v@.get(key@)) == Some(opt_rights_view(o)),
            None => opt_rights(v@.get(key@)) is None,
        },
{
    match v.get(key) {
        None => Some(None),
        Some(Value::Null) => Some(None),
        Some(x) => match MailboxRights::from_value(x) {
            Some(m) => Some(Some(m)),
            None => None,
        },
    }
}

pub fn get_opt_addresses(v: &Value, key: &str) -> (r: Option<Option<Vec<EmailAddress>>>)
    ensures
        match r {
            Some(o) => opt_list_of(v@.get(key@), |j: Json| address_of(j)) == Some(opt_addresses_view(o)),
            None => opt_list_of(v@.get(key@), |j: Json| address_of(j)) is None,
        },
{
    let a = match v.get(key) {
        None => return Some(None),
        Some(Value::Null) => return Some(None),
        Some(Value::Array(a)) => a,
        Some(_) => return None,
    };
    proof {
        lemma_views(a@);
    }
    let ghost items = views(a@);
    let mut out: Vec<EmailAddress> = Vec::new();
    let mut i: usize = 0;
    while i < a.len()
        invariant
            v@.get(key@) == Some(Json::Array(items)),
            items.len() == a@.len(),
            forall|j: int| 0 <= j < a@.len() ==> #[trigger] items[j] == a@[j]@,
            i <= a.len(),
            out@.len() == i,
            forall|j: int| 0 <= j < i ==> (#[trigger] address_of(items[j])) is Some,
            forall|j: int| 0 <= j < i ==> Some(#[trigger] out@[j]@) == address_of(items[j]),
        decreases a.len() - i,
    {
        match EmailAddress::from_value(&a[i]) {
            Some(x) => out.push(x),
            None => {
                assert(address_of(items[i as int]) is None);
                return None;
            },
        }
        i += 1;
    }
    proof {
        assert(out@.map_values(|a: EmailAddress| a@) =~= items.map_values(|x: Json| address_of(x)->0));
    }
    Some(Some(out))
}

pub fn get_opt_body_parts(v: &Value, key: &str) -> (r: Option<Option<Vec<EmailBodyPart>>>)
    ensures
        match r {
            Some(o) => opt_list_of(v@.get(key@), |j: Json| body_part_of(j)) == Some(opt_body_parts_view(o)),
            None => opt_list_of(v@.get(key@), |j: Json| body_part_of(j)) is None,
        },
{
    let a = match v.get(key) {
        None => return Some(None),
        Some(Value::Null) => return Some(None),
        Some(Value::Array(a)) => a,
        Some(_) => return None,
    };
    proof {
        lemma_views(a@);
    }
    let ghost items = views(a@);
    let mut out: Vec<EmailBodyPart> = Vec::new();
    let mut i: usize = 0;
    while i < a.len()
        invariant
            v@.get(key@) == Some(Json::Array(items)),
            items.len() == a@.len(),
            forall|j: int| 0 <= j < a@.len() ==> #[trigger] items[j] == a@[j]@,
            i <= a.len(),
            out@.len() == i,
            forall|j: int| 0 <= j < i ==> (#[trigger] body_part_of(items[j])) is Some,
            forall|j: int| 0 <= j < i ==> Some(#[trigger] out@[j]@) == body_part_of(items[j]),
        decreases a.len() - i,
    {
        match EmailBodyPart::from_value(&a[i]) {
            Some(x) => out.push(x),
            None => {
                assert(body_part_of(items[i as int]) is None);
                return None;
            },
        }
        i += 1;
    }
    proof {
        assert(out@.map_values(|a: EmailBodyPart| a@) =~= items.map_values(|x: Json| body_part_of(x)->0));
    }
    Some(Some(out))
}

pub fn get_opt_body_values(v: &Value, key: &str) -> (r: Option<Option<Vec<(String, EmailBodyValue)>>>)
    ensures
        match r {
            Some(o) => opt_map_of(v@.get(key@), |j: Json| body_value_of(j)) == Some(opt_body_values_view(o)),
            None => opt_map_of(v@.get(key@), |j: Json| body_value_of(j)) is None,
        },
{
    let e = match v.get(key) {
        None => return Some(None),
        Some(Value::Null) => return Some(None),
        Some(Value::Object(e)) => e,
        Some(_) => return None,
    };
    proof {
        lemma_entry_views(e@);
    }
    let ghost m = entry_views(e@);
    let mut out: Vec<(String, EmailBodyValue)> = Vec::new();
    let mut i: usize = 0;
    while i < e.len()
        invariant
            v@.get(key@) == Some(Json::Object(m)),
            m.len() == e@.len(),
            forall|j: int| 0 <= j < e@.len() ==> #[trigger] m[j] == (e@[j].0@, e@[j].1@),
            i <= e.len(),
            out@.len() == i,
            forall|j: int| 0 <= j < i ==> (#[trigger] body_value_of(m[j].1)) is Some,
            forall|j: int|
                0 <= j < i ==> #[trigger] out@[j].0@ == m[j].0 && Some(out@[j].1@) == body_value_of(
                    m[j].1,
                ),
        decreases e.len() - i,
    {
        assert(m[i as int] == (e@[i as int].0@, e@[i as int].1@));
        match EmailBodyValue::from_value(&e[i].1) {
            Some(x) => out.push((e[i].0.clone(), x)),
            None => {
                assert(body_value_of(m[i as int].1) is None);
                return None;
            },
        }
        i += 1;
    }
    proof {
        assert(out@.map_values(|p: (String, EmailBodyValue)| (p.0@, p.1@)) =~= m.map_values(
            |p: (Seq<char>, Json)| (p.0, body_value_of(p.1)->0),
        ));
    }
    Some(Some(out))
}

/// The model of an address.
pub struct AddressView {
    pub name: Option<Seq<char>>,
    pub email: Seq<char>,
}

impl View for EmailAddress {
    type V = AddressView;

    open spec fn view(&self) -> AddressView {
        AddressView {
            name: opt_view(self.name),
            email: self.email@,
        }
    }
}

/// An address that an object encodes, when every field reads.
pub open spec fn address_of(j: Json) -> Option<AddressView> {
    if j is Object
        && (opt_text(j.get("name"@))) is Some
        && (req_text(j.get("email"@))) is Some {
        Some(AddressView {
            name: (opt_text(j.get("name"@)))->0,
            email: (req_text(j.get("email"@)))->0,
        })
    } else {
        None
    }
}

impl EmailAddress {
    /// The record that `v` encodes, when every field reads.
    pub fn from_value(v: &Value) -> (r: Option<EmailAddress>)
        ensures
            match r {
                Some(x) => address_of(v@) == Some(x@),
                None => address_of(v@) is None,
            },
    {
        if !matches!(v, Value::Object(_)) {
            return None;
        }
        let name = match get_opt_text(v, "name") {
            Some(x) => x,
            None => return None,
        };
        let email = match get_req_text(v, "email") {
            Some(x) => x,
            None => return None,
        };
        Some(EmailAddress { name, email })
    }
}

/// The model of a body part.
pub struct BodyPartView {
    pub part_id: Option<Seq<char>>,
    pub blob_id: Option<Seq<char>>,
    pub size: Option<u64>,
    pub type_: Option<Seq<char>>,
    pub name: Option<Seq<char>>,
    pub charset: Option<Seq<char>>,
    pub disposition: Option<Seq<char>>,
}

impl View for EmailBodyPart {
    type V = BodyPartView;

    open spec fn view(&self) -> BodyPartView {
        BodyPartView {
            part_id: opt_view(self.part_id),
            blob_id: opt_view(self.blob_id),
            size: self.size,
            type_: opt_view(self.type_),
            name: opt_view(self.name),
            charset: opt_view(self.charset),
            disposition: opt_view(self.disposition),
        }
    }
}

/// A body part that an object encodes, when every field reads.
pub open spec fn body_part_of(j: Json) -> Option<BodyPartView> {
    if j is Object
        && (opt_text(j.get("partId"@))) is Some
        && (opt_text(j.get("blobId"@))) is Some
        && (opt_count(j.get("size"@))) is Some
        && (opt_text(j.get("type"@))) is Some
        && (opt_text(j.get("name"@))) is Some
        && (opt_text(j.get("charset"@))) is Some
        && (opt_text(j.get("disposition"@))) is Some {
        Some(BodyPartView {
            part_id: (opt_text(j.get("partId"@)))->0,
            blob_id: (opt_text(j.get("blobId"@)))->0,
            size: (opt_count(j.get("size"@)))->0,
            type_: (opt_text(j.get("type"@)))->0,
            name: (opt_text(j.get("name"@)))->0,
            charset: (opt_text(j.get("charset"@)))->0,
            disposition: (opt_text(j.get("disposition"@)))->0,
        })
    } else {
        None
    }
}

impl EmailBodyPart {
    /// The record that `v` encodes, when every field reads.
    pub fn from_value(v: &Value) -> (r: Option<EmailBodyPart>)
        ensures
            match r {
                Some(x) => body_part_of(v@) == Some(x@),
                None => body_part_of(v@) is None,
            },
    {
        if !matches!(v, Value::Object(_)) {
            return None;
        }
        let part_id = match get_opt_text(v, "partId") {
            Some(x) => x,
            None => return None,
        };
        let blob_id = match get_opt_text(v, "blobId") {
            Some(x) => x,
            None => return None,
        };
        let size = match get_opt_count(v, "size") {
            Some(x) => x,
            None => return None,
        };
        let type_ = match get_opt_text(v, "type") {
            Some(x) => x,
            None => return None,
        };
        let name = match get_opt_text(v, "name") {
            Some(x) => x,
            None => return None,
        };
        let charset = match get_opt_text(v, "charset") {
            Some(x) => x,
            None => return None,
        };
        let disposition = match get_opt_text(v, "disposition") {
            Some(x) => x,
            None => return None,
        };
        Some(EmailBodyPart { part_id, blob_id, size, type_, name, charset, disposition })
    }
}

/// The model of a body value.
pub struct BodyValueView {
    pub value: Seq<char>,
    pub is_encoding_problem: Option<bool>,
    pub is_truncated: Option<bool>,
}

impl View for EmailBodyValue {
    type V = BodyValueView;

    open spec fn view(&self) -> BodyValueView {
        BodyValueView {
            value: self.value@,
            is_encoding_problem: self.is_encoding_problem,
            is_truncated: self.is_truncated,
        }
    }
}

/// A body value that an object encodes, when every field reads.
pub open spec fn body_value_of(j: Json) -> Option<BodyValueView> {
    if j is Object
        && (req_text(j.get("value"@))) is Some
        && (opt_flag(j.get("isEncodingProblem"@))) is Some
        && (opt_flag(j.get("isTruncated"@))) is Some {
        Some(BodyValueView {
            value: (req_text(j.get("value"@)))->0,
            is_encoding_problem: (opt_flag(j.get("isEncodingProblem"@)))->0,
            is_truncated: (opt_flag(j.get("isTruncated"@)))->0,
        })
    } else {
        None
    }
}

impl EmailBodyValue {
    /// The record that `v` encodes, when every field reads.
    pub fn from_value(v: &Value) -> (r: Option<EmailBodyValue>)
        ensures
            match r {
                Some(x) => body_value_of(v@) == Some(x@),
                None => body_value_of(v@) is None,
            },
    {
        if !matches!(v, Value::Object(_)) {
            return None;
        }
        let value = match get_req_text(v, "value") {
            Some(x) => x,
            None => return None,
        };
        let is_encoding_problem = match get_opt_flag(v, "isEncodingProblem") {
            Some(x) => x,
            None => return None,
        };
        let is_truncated = match get_opt_flag(v, "isTruncated") {
            Some(x) => x,
            None => return None,
        };
        Some(EmailBodyValue { value, is_encoding_problem, is_truncated })
    }
}

/// The model of the rights on a mailbox.
pub struct RightsView {
    pub may_read_items: bool,
    pub may_add_items: bool,
    pub may_remove_items: bool,
    pub may_set_seen: bool,
    pub may_set_keywords: bool,
    pub may_create_child: bool,
    pub may_rename: bool,
    pub may_delete: bool,
    pub may_submit: bool,
}

impl View for MailboxRights {
    type V = RightsView;

    open spec fn view(&self) -> RightsView {
        RightsView {
            may_read_items: self.may_read_items,
            may_add_items: self.may_add_items,
            may_remove_items: self.may_remove_items,
            may_set_seen: self.may_set_seen,
            may_set_keywords: self.may_set_keywords,
            may_create_child: self.may_create_child,
            may_rename: self.may_rename,
            may_delete: self.may_delete,
            may_submit: self.may_submit,
        }
    }
}

/// The rights on a mailbox that an object encodes, when every field reads.
pub open spec fn rights_of(j: Json) -> Option<RightsView> {
    if j is Object
        && (flag(j.get("mayReadItems"@))) is Some
        && (flag(j.get("mayAddItems"@))) is Some
        && (flag(j.get("mayRemoveItems"@))) is Some
        && (flag(j.get("maySetSeen"@))) is Some
        && (flag(j.get("maySetKeywords"@))) is Some
        && (flag(j.get("mayCreateChild"@))) is Some
        && (flag(j.get("mayRename"@))) is Some
        && (flag(j.get("mayDelete"@))) is Some
        && (flag(j.get("maySubmit"@))) is Some {
        Some(RightsView {
            may_read_items: (flag(j.get("mayReadItems"@)))->0,
            may_add_items: (flag(j.get("mayAddItems"@)))->0,
            may_remove_items: (flag(j.get("mayRemoveItems"@)))->0,
            may_set_seen: (flag(j.get("maySetSeen"@)))->0,
            may_set_keywords: (flag(j.get("maySetKeywords"@)))->0,
            may_create_child: (flag(j.get("mayCreateChild"@)))->0,
            may_rename: (flag(j.get("mayRename"@)))->0,
            may_delete: (flag(j.get("mayDelete"@)))->0,
            may_submit: (flag(j.get("maySubmit"@)))->0,
        })
    } else {
        None
    }
}

impl MailboxRights {
    /// The record that `v` encodes, when every field reads.
    pub fn from_value(v: &Value) -> (r: Option<MailboxRights>)
        ensures
            match r {
                Some(x) => rights_of(v@) == Some(x@),
                None => rights_of(v@) is None,
            },
    {
        if !matches!(v, Value::Object(_)) {
            return None;
        }
        let may_read_items = match get_flag(v, "mayReadItems") {
            Some(x) => x,
            None => return None,
        };
        let may_add_items = match get_flag(v, "mayAddItems") {
            Some(x) => x,
            None => return None,
        };
        let may_remove_items = match get_flag(v, "mayRemoveItems") {
            Some(x) => x,
            None => return None,
        };
        let may_set_seen = match get_flag(v, "maySetSeen") {
            Some(x) => x,
            None => return None,
        };
        let may_set_keywords = match get_flag(v, "maySetKeywords") {
            Some(x) => x,
            None => return None,
        };
        let may_create_child = match get_flag(v, "mayCreateChild") {
            Some(x) => x,
            None => return None,
        };
        let may_rename = match get_flag(v, "mayRename") {
            Some(x) => x,
            None => return None,
        };
        let may_delete = match get_flag(v, "mayDelete") {
            Some(x) => x,
            None => return None,
        };
        let may_submit = match get_flag(v, "maySubmit") {
            Some(x) => x,
            None => return None,
        };
        Some(MailboxRights { may_read_items, may_add_items, may_remove_items, may_set_seen, may_set_keywords, may_create_child, may_rename, may_delete, may_submit })
    }
}

/// The model of a mailbox.
pub struct MailboxView {
    pub id: Seq<char>,
    pub name: Seq<char>,
    pub parent_id: Option<Seq<char>>,
    pub role: Option<Seq<char>>,
    pub sort_order: u32,
    pub total_emails: u64,
    pub unread_emails: u64,
    pub total_threads: u64,
    pub unread_threads: u64,
    pub my_rights: Option<RightsView>,
    pub is_subscribed: Option<bool>,
}

impl View for Mailbox {
    type V = MailboxView;

    open spec fn view(&self) -> MailboxView {
        MailboxView {
            id: self.id@,
            name: self.name@,
            parent_id: opt_view(self.parent_id),
            role: opt_view(self.role),
            sort_order: self.sort_order,
            total_emails: self.total_emails,
            unread_emails: self.unread_emails,
            total_threads: self.total_threads,
            unread_threads: self.unread_threads,
            my_rights: opt_rights_view(self.my_rights),
            is_subscribed: self.is_subscribed,
        }
    }
}

/// A mailbox that an object encodes, when every field reads.
pub open spec fn mailbox_of(j: Json) -> Option<MailboxView> {
    if j is Object
        && (req_text(j.get("id"@))) is Some
        && (req_text(j.get("name"@))) is Some
        && (opt_text(j.get("parentId"@))) is Some
        && (opt_text(j.get("role"@))) is Some
        && (small_count(j.get("sortOrder"@))) is Some
        && (count(j.get("totalEmails"@))) is Some
        && (count(j.get("unreadEmails"@))) is Some
        && (count(j.get("totalThreads"@))) is Some
        && (count(j.get("unreadThreads"@))) is Some
        && (opt_rights(j.get("myRights"@))) is Some
        && (opt_flag(j.get("isSubscribed"@))) is Some {
        Some(MailboxView {
            id: (req_text(j.get("id"@)))->0,
            name: (req_text(j.get("name"@)))->0,
            parent_id: (opt_text(j.get("parentId"@)))->0,
            role: (opt_text(j.get("role"@)))->0,
            sort_order: (small_count(j.get("sortOrder"@)))->0,
            total_emails: (count(j.get("totalEmails"@)))->0,
            unread_emails: (count(j.get("unreadEmails"@)))->0,
            total_threads: (count(j.get("totalThreads"@)))->0,
            unread_threads: (count(j.get("unreadThreads"@)))->0,
            my_rights: (opt_rights(j.get("myRights"@)))->0,
            is_subscribed: (opt_flag(j.get("isSubscribed"@)))->0,
        })
    } else {
        None
    }
}

impl Mailbox {
    /// The record that `v` encodes, when every field reads.
    pub fn from_value(v: &Value) -> (r: Option<Mailbox>)
        ensures
            match r {
                Some(x) => mailbox_of(v@) == Some(x@),
                None => mailbox_of(v@) is None,
            },
    {
        if !matches!(v, Value::Object(_)) {
            return None;
        }
        let id = match get_req_text(v, "id") {
            Some(x) => x,
            None => return None,
        };
        let name = match get_req_text(v, "name") {
            Some(x) => x,
            None => return None,
        };
        let parent_id = match get_opt_text(v, "parentId") {
            Some(x) => x,
            None => return None,
        };
        let role = match get_opt_text(v, "role") {
            Some(x) => x,
            None => return None,
        };
        let sort_order = match get_small_count(v, "sortOrder") {
            Some(x) => x,
            None => return None,
        };
        let total_emails = match get_count(v, "totalEmails") {
            Some(x) => x,
            None => return None,
        };
        let unread_emails = match get_count(v, "unreadEmails") {
            Some(x) => x,
            None => return None,
        };
        let total_threads = match get_count(v, "totalThreads") {
            Some(x) => x,
            None => return None,
        };
        let unread_threads = match get_count(v, "unreadThreads") {
            Some(x) => x,
            None => return None,
        };
        let my_rights = match get_opt_rights(v, "myRights") {
            Some(x) => x,
            None => return None,
        };
        let is_subscribed = match get_opt_flag(v, "isSubscribed") {
            Some(x) => x,
            None => return None,
        };
        Some(Mailbox { id, name, parent_id, role, sort_order, total_emails, unread_emails, total_threads, unread_threads, my_rights, is_subscribed })
    }
}

/// The model of an email.
pub struct EmailView {
    pub id: Option<Seq<char>>,
    pub blob_id: Option<Seq<char>>,
    pub thread_id: Option<Seq<char>>,
    pub mailbox_ids: Option<Seq<(Seq<char>, bool)>>,
    pub keywords: Option<Seq<(Seq<char>, bool)>>,
    pub size: Option<u64>,
    pub received_at: Option<Seq<char>>,
    pub from: Option<Seq<AddressView>>,
    pub to: Option<Seq<AddressView>>,
    pub cc: Option<Seq<AddressView>>,
    pub bcc: Option<Seq<AddressView>>,
    pub reply_to: Option<Seq<AddressView>>,
    pub subject: Option<Seq<char>>,
    pub sent_at: Option<Seq<char>>,
    pub has_attachment: Option<bool>,
    pub preview: Option<Seq<char>>,
    pub text_body: Option<Seq<BodyPartView>>,
    pub html_body: Option<Seq<BodyPartView>>,
    pub body_values: Option<Seq<(Seq<char>, BodyValueView)>>,
}

impl View for Email {
    type V = EmailView;

    open spec fn view(&self) -> EmailView {
        EmailView {
            id: opt_view(self.id),
            blob_id: opt_view(self.blob_id),
            thread_id: opt_view(self.thread_id),
            mailbox_ids: opt_flag_pairs_view(self.mailbox_ids),
            keywords: opt_flag_pairs_view(self.keywords),
            size: self.size,
            received_at: opt_view(self.received_at),
            from: opt_addresses_view(self.from),
            to: opt_addresses_view(self.to),
            cc: opt_addresses_view(self.cc),
            bcc: opt_addresses_view(self.bcc),
            reply_to: opt_addresses_view(self.reply_to),
            subject: opt_view(self.subject),
            sent_at: opt_view(self.sent_at),
            has_attachment: self.has_attachment,
            preview: opt_view(self.preview),
            text_body: opt_body_parts_view(self.text_body),
            html_body: opt_body_parts_view(self.html_body),
            body_values: opt_body_values_view(self.body_values),
        }
    }
}

/// An email that an object encodes, when every field reads.
pub open spec fn email_of(j: Json) -> Option<EmailView> {
    if j is Object
        && (opt_text(j.get("id"@))) is Some
        && (opt_text(j.get("blobId"@))) is Some
        && (opt_text(j.get("threadId"@))) is Some
        && (opt_map_of(j.get("mailboxIds"@), |j: Json| flag_item(j))) is Some
        && (opt_map_of(j.get("keywords"@), |j: Json| flag_item(j))) is Some
        && (opt_count(j.get("size"@))) is Some
        && (opt_text(j.get("receivedAt"@))) is Some
        && (opt_list_of(j.get("from"@), |j: Json| address_of(j))) is Some
        && (opt_list_of(j.get("to"@), |j: Json| address_of(j))) is Some
        && (opt_list_of(j.get("cc"@), |j: Json| address_of(j))) is Some
        && (opt_list_of(j.get("bcc"@), |j: Json| address_of(j))) is Some
        && (opt_list_of(j.get("replyTo"@), |j: Json| address_of(j))) is Some
        && (opt_text(j.get("subject"@))) is Some
        && (opt_text(j.get("sentAt"@))) is Some
        && (opt_flag(j.get("hasAttachment"@))) is Some
        && (opt_text(j.get("preview"@))) is Some
        && (opt_list_of(j.get("textBody"@), |j: Json| body_part_of(j))) is Some
        && (opt_list_of(j.get("htmlBody"@), |j: Json| body_part_of(j))) is Some
        && (opt_map_of(j.get("bodyValues"@), |j: Json| body_value_of(j))) is Some {
        Some(EmailView {
            id: (opt_text(j.get("id"@)))->0,
            blob_id: (opt_text(j.get("blobId"@)))->0,
            thread_id: (opt_text(j.get("threadId"@)))->0,
            mailbox_ids: (opt_map_of(j.get("mailboxIds"@), |j: Json| flag_item(j)))->0,
            keywords: (opt_map_of(j.get("keywords"@), |j: Json| flag_item(j)))->0,
            size: (opt_count(j.get("size"@)))->0,
            received_at: (opt_text(j.get("receivedAt"@)))->0,
            from: (opt_list_of(j.get("from"@), |j: Json| address_of(j)))->0,
            to: (opt_list_of(j.get("to"@), |j: Json| address_of(j)))->0,
            cc: (opt_list_of(j.get("cc"@), |j: Json| address_of(j)))->0,
            bcc: (opt_list_of(j.get("bcc"@), |j: Json| address_of(j)))->0,
            reply_to: (opt_list_of(j.get("replyTo"@), |j: Json| address_of(j)))->0,
            subject: (opt_text(j.get("subject"@)))->0,
            sent_at: (opt_text(j.get("sentAt"@)))->0,
            has_attachment: (opt_flag(j.get("hasAttachment"@)))->0,
            preview: (opt_text(j.get("preview"@)))->0,
            text_body: (opt_list_of(j.get("textBody"@), |j: Json| body_part_of(j)))->0,
            html_body: (opt_list_of(j.get("htmlBody"@), |j: Json| body_part_of(j)))->0,
            body_values: (opt_map_of(j.get("bodyValues"@), |j: Json| body_value_of(j)))->0,
        })
    } else {
        None
    }
}

impl Email {
    /// The record that `v` encodes, when every field reads.
    pub fn from_value(v: &Value) -> (r: Option<Email>)
        ensures
            match r {
                Some(x) => email_of(v@) == Some(x@),
                None => email_of(v@) is None,
            },
    {
        if !matches!(v, Value::Object(_)) {
            return None;
        }
        let id = match get_opt_text(v, "id") {
            Some(x) => x,
            None => return None,
        };
        let blob_id = match get_opt_text(v, "blobId") {
            Some(x) => x,
            None => return None,
        };
        let thread_id = match get_opt_text(v, "threadId") {
            Some(x) => x,
            None => return None,
        };
        let mailbox_ids = match get_opt_flag_map(v, "mailboxIds") {
            Some(x) => x,
            None => return None,
        };
        let keywords = match get_opt_flag_map(v, "keywords") {
            Some(x) => x,
            None => return None,
        };
        let size = match get_opt_count(v, "size") {
            Some(x) => x,
            None => return None,
        };
        let received_at = match get_opt_text(v, "receivedAt") {
            Some(x) => x,
            None => return None,
        };
        let from = match get_opt_addresses(v, "from") {
            Some(x) => x,
            None => return None,
        };
        let to = match get_opt_addresses(v, "to") {
            Some(x) => x,
            None => return None,
        };
        let cc = match get_opt_addresses(v, "cc") {
            Some(x) => x,
            None => return None,
        };
        let bcc = match get_opt_addresses(v, "bcc") {
            Some(x) => x,
            None => return None,
        };
        let reply_to = match get_opt_addresses(v, "replyTo") {
            Some(x) => x,
            None => return None,
        };
        let subject = match get_opt_text(v, "subject") {
            Some(x) => x,
            None => return None,
        };
        let sent_at = match get_opt_text(v, "sentAt") {
            Some(x) => x,
            None => return None,
        };
        let has_attachment = match get_opt_flag(v, "hasAttachment") {
            Some(x) => x,
            None => return None,
        };
        let preview = match get_opt_text(v, "preview") {
            Some(x) => x,
            None => return None,
        };
        let text_body = match get_opt_body_parts(v, "textBody") {
            Some(x) => x,
            None => return None,
        };
        let html_body = match get_opt_body_parts(v, "htmlBody") {
            Some(x) => x,
            None => return None,
        };
        let body_values = match get_opt_body_values(v, "bodyValues") {
            Some(x) => x,
            None => return None,
        };
        Some(Email { id, blob_id, thread_id, mailbox_ids, keywords, size, received_at, from, to, cc, bcc, reply_to, subject, sent_at, has_attachment, preview, text_body, html_body, body_values })
    }
}

/// The model of a sending identity.
pub struct IdentityView {
    pub id: Seq<char>,
    pub name: Option<Seq<char>>,
    pub email: Seq<char>,
    pub reply_to: Option<Seq<AddressView>>,
    pub bcc: Option<Seq<AddressView>>,
    pub text_signature: Option<Seq<char>>,
    pub html_signature: Option<Seq<char>>,
    pub may_delete: Option<bool>,
}

impl View for Identity {
    type V = IdentityView;

    open spec fn view(&self) -> IdentityView {
        IdentityView {
            id: self.id@,
            name: opt_view(self.name),
            email: self.email@,
            reply_to: opt_addresses_view(self.reply_to),
            bcc: opt_addresses_view(self.bcc),
            text_signature: opt_view(self.text_signature),
            html_signature: opt_view(self.html_signature),
            may_delete: self.may_delete,
        }
    }
}

/// A sending identity that an object encodes, when every field reads.
pub open spec fn identity_of(j: Json) -> Option<IdentityView> {
    if j is Object
        && (req_text(j.get("id"@))) is Some
        && (opt_text(j.get("name"@))) is Some
        && (req_text(j.get("email"@))) is Some
        && (opt_list_of(j.get("replyTo"@), |j: Json| address_of(j))) is Some
        && (opt_list_of(j.get("bcc"@), |j: Json| address_of(j))) is Some
        && (opt_text(j.get("textSignature"@))) is Some
        && (opt_text(j.get("htmlSignature"@))) is Some
        && (opt_flag(j.get("mayDelete"@))) is Some {
        Some(IdentityView {
            id: (req_text(j.get("id"@)))->0,
            name: (opt_text(j.get("name"@)))->0,
            email: (req_text(j.get("email"@)))->0,
            reply_to: (opt_list_of(j.get("replyTo"@), |j: Json| address_of(j)))->0,
            bcc: (opt_list_of(j.get("bcc"@), |j: Json| address_of(j)))->0,
            text_signature: (opt_text(j.get("textSignature"@)))->0,
            html_signature: (opt_text(j.get("htmlSignature"@)))->0,
            may_delete: (opt_flag(j.get("mayDelete"@)))->0,
        })
    } else {
        None
    }
}

impl Identity {
    /// The record that `v` encodes, when every field reads.
    pub fn from_value(v: &Value) -> (r: Option<Identity>)
        ensures
            match r {
                Some(x) => identity_of(v@) == Some(x@),
                None => identity_of(v@) is None,
            },
    {
        if !matches!(v, Value::Object(_)) {
            return None;
        }
        let id = match get_req_text(v, "id") {
            Some(x) => x,
            None => return None,
        };
        let name = match get_opt_text(v, "name") {
            Some(x) => x,
            None => return None,
        };
        let email = match get_req_text(v, "email") {
            Some(x) => x,
            None => return None,
        };
        let reply_to = match get_opt_addresses(v, "replyTo") {
            Some(x) => x,
            None => return None,
        };
        let bcc = match get_opt_addresses(v, "bcc") {
            Some(x) => x,
            None => return None,
        };
        let text_signature = match get_opt_text(v, "textSignature") {
            Some(x) => x,
            None => return None,
        };
        let html_signature = match get_opt_text(v, "htmlSignature") {
            Some(x) => x,
            None => return None,
        };
        let may_delete = match get_opt_flag(v, "mayDelete") {
            Some(x) => x,
            None => return None,
        };
        Some(Identity { id, name, email, reply_to, bcc, text_signature, html_signature, may_delete })
    }
}

/// The model of a thread.
pub struct ThreadView {
    pub id: Seq<char>,
    pub email_ids: Seq<Seq<char>>,
}

impl View for Thread {
    type V = ThreadView;

    open spec fn view(&self) -> ThreadView {
        ThreadView {
            id: self.id@,
            email_ids: texts_view(self.email_ids@),
        }
    }
}

/// A thread that an object encodes, when every field reads.
pub open spec fn thread_of(j: Json) -> Option<ThreadView> {
    if j is Object
        && (req_text(j.get("id"@))) is Some
        && (list_of(j.get("emailIds"@), |j: Json| text_item(j))) is Some {
        Some(ThreadView {
            id: (req_text(j.get("id"@)))->0,
            email_ids: (list_of(j.get("emailIds"@), |j: Json| text_item(j)))->0,
        })
    } else {
        None
    }
}

impl Thread {
    /// The record that `v` encodes, when every field reads.
    pub fn from_value(v: &Value) -> (r: Option<Thread>)
        ensures
            match r {
                Some(x) => thread_of(v@) == Some(x@),
                None => thread_of(v@) is None,
            },
    {
        if !matches!(v, Value::Object(_)) {
            return None;
        }
        let id = match get_req_text(v, "id") {
            Some(x) => x,
            None => return None,
        };
        let email_ids = match get_text_list(v, "emailIds") {
            Some(x) => x,
            None => return None,
        };
        Some(Thread { id, email_ids })
    }
}

/// The model of a failed creation.
pub struct SetErrorView {
    pub type_: Seq<char>,
    pub description: Option<Seq<char>>,
}

impl View for SetError {
    type V = SetErrorView;

    open spec fn view(&self) -> SetErrorView {
        SetErrorView {
            type_: self.type_@,
            description: opt_view(self.description),
        }
    }
}

/// A failed creation that an object encodes, when every field reads.
pub open spec fn set_error_of(j: Json) -> Option<SetErrorView> {
    if j is Object
        && (req_text(j.get("type"@))) is Some
        && (opt_text(j.get("description"@))) is Some {
        Some(SetErrorView {
            type_: (req_text(j.get("type"@)))->0,
            description: (opt_text(j.get("description"@)))->0,
        })
    } else {
        None
    }
}

impl SetError {
    /// The record that `v` encodes, when every field reads.
    pub fn from_value(v: &Value) -> (r: Option<SetError>)
        ensures
            match r {
                Some(x) => set_error_of(v@) == Some(x@),
                None => set_error_of(v@) is None,
            },
    {
        if !matches!(v, Value::Object(_)) {
            return None;
        }
        let type_ = match get_req_text(v, "type") {
            Some(x) => x,
            None => return None,
        };
        let description = match get_opt_text(v, "description") {
            Some(x) => x,
            None => return None,
        };
        Some(SetError { type_, description })
    }
}

/// The model of a reference to an earlier call's result.
pub struct ResultReferenceView {
    pub result_of: Seq<char>,
    pub name: Seq<char>,
    pub path: Seq<char>,
}

impl View for ResultReference {
    type V = ResultReferenceView;

    open spec fn view(&self) -> ResultReferenceView {
        ResultReferenceView {
            result_of: self.result_of@,
            name: self.name@,
            path: self.path@,
        }
    }
}

/// A reference to an earlier call's result that an object encodes, when every field reads.
pub open spec fn result_reference_of(j: Json) -> Option<ResultReferenceView> {
    if j is Object
        && (req_text(j.get("resultOf"@))) is Some
        && (req_text(j.get("name"@))) is Some
        && (req_text(j.get("path"@))) is Some {
        Some(ResultReferenceView {
            result_of: (req_text(j.get("resultOf"@)))->0,
            name: (req_text(j.get("name"@)))->0,
            path: (req_text(j.get("path"@)))->0,
        })
    } else {
        None
    }
}

impl ResultReference {
    /// The record that `v` encodes, when every field reads.
    pub fn from_value(v: &Value) -> (r: Option<ResultReference>)
        ensures
            match r {
                Some(x) => result_reference_of(v@) == Some(x@),
                None => result_reference_of(v@) is None,
            },
    {
        if !matches!(v, Value::Object(_)) {
            return None;
        }
        let result_of = match get_req_text(v, "resultOf") {
            Some(x) => x,
            None => return None,
        };
        let name = match get_req_text(v, "name") {
            Some(x) => x,
            None => return None,
        };
        let path = match get_req_text(v, "path") {
            Some(x) => x,
            None => return None,
        };
        Some(ResultReference { result_of, name, path })
    }
}

} // verus!
