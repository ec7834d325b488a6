//! Naming mailboxes in URLs: mailboxes with a well-known role go by their
//! role, the others by their id.
use vstd::prelude::*;

use crate::client::JmapClient;
use crate::mail::Mailbox;
use crate::text::same_text;

verus! {

/// Whether `s` is one of the roles that name a mailbox in URLs.
pub open spec fn well_known_role(s: Seq<char>) -> bool {
    s == "inbox"@ || s == "drafts"@ || s == "sent"@ || s == "junk"@ || s == "trash"@ || s
        == "archive"@
}

/// Whether `m` has the role `role`.
pub open spec fn has_role(m: Mailbox, role: Seq<char>) -> bool {
    m.role matches Some(r) && r@ == role
}

/// Whether `i` is the first of `ms` with the id `id`.
pub open spec fn first_with_id(ms: Seq<Mailbox>, id: Seq<char>, i: int) -> bool {
    &&& 0 <= i < ms.len()
    &&& ms[i].id@ == id
    &&& forall|j: int| 0 <= j < i ==> #[trigger] ms[j].id@ != id
}

/// Whether `i` is the first of `ms` with the role `role`.
pub open spec fn first_with_role(ms: Seq<Mailbox>, role: Seq<char>, i: int) -> bool {
    &&& 0 <= i < ms.len()
    &&& has_role(ms[i], role)
    &&& forall|j: int| 0 <= j < i ==> !has_role(#[trigger] ms[j], role)
}

pub fn is_well_known_role(s: &str) -> (r: bool)
    ensures
        r == well_known_role(s@),
{
    same_text(s, "inbox") || same_text(s, "drafts") || same_text(s, "sent") || same_text(s, "junk")
        || same_text(s, "trash") || same_text(s, "archive")
}

/// The position of the first mailbox with the id `id`.
pub fn position_of_id(ms: &[Mailbox], id: &str) -> (r: Option<usize>)
    ensures
        match r {
            Some(i) => first_with_id(ms@, id@, i as int),
            None => forall|j: int| 0 <= j < ms@.len() ==> #[trigger] ms@[j].id@ != id@,
        },
{
    let mut i: usize = 0;
    while i < ms.len()
        invariant
            i <= ms.len(),
            forall|j: int| 0 <= j < i ==> #[trigger] ms@[j].id@ != id@,
        decreases ms.len() - i,
    {
        if same_text(ms[i].id.as_str(), id) {
            return Some(i);
        }
        i += 1;
    }
    None
}

/// The position of the first mailbox with the role `role`.
pub fn position_of_role(ms: &[Mailbox], role: &str) -> (r: Option<usize>)
    ensures
        match r {
            Some(i) => first_with_role(ms@, role@, i as int),
            None => forall|j: int| 0 <= j < ms@.len() ==> !has_role(#[trigger] ms@[j], role@),
        },
{
    let mut i: usize = 0;
    while i < ms.len()
        invariant
            i <= ms.len(),
            forall|j: int| 0 <= j < i ==> !has_role(#[trigger] ms@[j], role@),
        decreases ms.len() - i,
    {
        match &ms[i].role {
            Some(r) => {
                if same_text(r.as_str(), role) {
                    return Some(i);
                }
            },
            None => {},
        }
        i += 1;
    }
    None
}

/// The name of a mailbox in URLs: its role when it has a well-known one, its
/// id otherwise (also when no mailbox has that id).
pub fn mailbox_id_to_slug(mailboxes: &[Mailbox], mailbox_id: &str) -> (r: String)
    ensures
        (forall|j: int| 0 <= j < mailboxes@.len() ==> #[trigger] mailboxes@[j].id@ != mailbox_id@)
            ==> r@ == mailbox_id@,
        forall|i: int| #[trigger]
            first_with_id(mailboxes@, mailbox_id@, i) ==> r@ == match mailboxes@[i].role {
                Some(role) => if well_known_role(role@) {
                    role@
                } else {
                    mailbox_id@
                },
                None => mailbox_id@,
            },
{
    match position_of_id(mailboxes, mailbox_id) {
        Some(i) => {
            assert forall|k: int| #[trigger]
                first_with_id(mailboxes@, mailbox_id@, k) implies k == i by {
                if k < i {
                } else if k > i {
                    assert(mailboxes@[i as int].id@ == mailbox_id@);
                }
            }
            match &mailboxes[i].role {
                Some(role) => {
                    if is_well_known_role(role.as_str()) {
                        role.clone()
                    } else {
                        mailbox_id.to_owned()
                    }
                },
                None => mailbox_id.to_owned(),
            }
        },
        None => mailbox_id.to_owned(),
    }
}

/// The id of the mailbox that a URL names: the first mailbox with that role
/// when the name is a well-known role that some mailbox has, else the name
/// itself when it is a mailbox's id, else none.
pub fn slug_to_mailbox_id(mailboxes: &[Mailbox], slug: &str) -> (r: Option<String>)
    ensures
        forall|i: int|
            well_known_role(slug@) && #[trigger] first_with_role(mailboxes@, slug@, i) ==> (r matches Some(
                x,
            ) && x@ == mailboxes@[i].id@),
        (!well_known_role(slug@) || forall|j: int|
            0 <= j < mailboxes@.len() ==> !has_role(#[trigger] mailboxes@[j], slug@)) ==> (if exists|
            j: int,
        | 0 <= j < mailboxes@.len() && #[trigger] mailboxes@[j].id@ == slug@ {
            r matches Some(x) && x@ == slug@
        } else {
            r is None
        }),
{
    if is_well_known_role(slug) {
        match position_of_role(mailboxes, slug) {
            Some(i) => {
                assert forall|k: int| #[trigger]
                    first_with_role(mailboxes@, slug@, k) implies k == i by {
                    if k < i {
                    } else if k > i {
                        assert(has_role(mailboxes@[i as int], slug@));
                    }
                }
                return Some(mailboxes[i].id.clone());
            },
            None => {},
        }
    }
    match position_of_id(mailboxes, slug) {
        Some(_) => Some(slug.to_owned()),
        None => None,
    }
}

impl JmapClient {
    /// The first of `mailboxes` with the role `role`, such as `drafts` or `sent`.
    pub fn find_mailbox_by_role<'a>(&self, mailboxes: &'a [Mailbox], role: &str) -> (r: Option<
        &'a Mailbox,
    >)
        ensures
            (forall|j: int| 0 <= j < mailboxes@.len() ==> !has_role(#[trigger] mailboxes@[j], role@))
                ==> r is None,
            forall|i: int| #[trigger]
                first_with_role(mailboxes@, role@, i) ==> (r matches Some(m) && *m == mailboxes@[i]),
    {
        match position_of_role(mailboxes, role) {
            Some(i) => {
                assert forall|k: int| #[trigger]
                    first_with_role(mailboxes@, role@, k) implies k == i by {
                    if k < i {
                    } else if k > i {
                        assert(has_role(mailboxes@[i as int], role@));
                    }
                }
                Some(&mailboxes[i])
            },
            None => None,
        }
    }
}

} // verus!
