//! What the application knows of the account, and how a state change
//! notification updates it.
use vstd::prelude::*;

use crate::client::JmapClient;
use crate::mail::{Identity, Mailbox};
use crate::push::{StateChange, changed_view};
use crate::decode::text_pairs_view;
use crate::value::{find_key, lookup, lemma_lookup_skip};

verus! {

/// The state shared by the views of the application.
#[derive(Debug, Clone)]
pub struct AppState {
    /// The connection, while logged in.
    pub client: Option<JmapClient>,
    pub mailboxes: Vec<Mailbox>,
    pub selected_mailbox: Option<String>,
    pub identities: Vec<Identity>,
    /// The email being replied to, if any.
    pub reply_to_email: Option<String>,
    pub reply_all: bool,
    /// The last email state token seen.
    pub email_state: Option<String>,
    /// The last mailbox state token seen.
    pub mailbox_state: Option<String>,
    /// Goes up by one each time emails change; lists re-run their query when it moves.
    pub email_refresh_trigger: u64,
    /// Whether the attempt to log in with saved credentials is over.
    pub auto_login_done: bool,
}

/// The empty state of a logged-out application.
pub open spec fn logged_out(s: AppState) -> bool {
    &&& s.client is None
    &&& s.mailboxes@.len() == 0
    &&& s.selected_mailbox is None
    &&& s.identities@.len() == 0
    &&& s.reply_to_email is None
    &&& !s.reply_all
    &&& s.email_state is None
    &&& s.mailbox_state is None
    &&& s.email_refresh_trigger == 0
}

/// `n` plus one, wrapping to zero past the largest value.
pub open spec fn next_count(n: u64) -> u64 {
    if n == u64::MAX {
        0
    } else {
        (n + 1) as u64
    }
}

/// The changes that a notification reports for `account`.
pub open spec fn changes_for(change: StateChange, account: Seq<char>) -> Option<
    Seq<(Seq<char>, Seq<char>)>,
> {
    lookup(changed_view(change.changed@), account)
}

impl AppState {
    /// A state with nobody logged in yet.
    pub fn new() -> (r: AppState)
        ensures
            logged_out(r),
            !r.auto_login_done,
    {
        AppState {
            client: None,
            mailboxes: Vec::new(),
            selected_mailbox: None,
            identities: Vec::new(),
            reply_to_email: None,
            reply_all: false,
            email_state: None,
            mailbox_state: None,
            email_refresh_trigger: 0,
            auto_login_done: false,
        }
    }

    /// Forgets the connection and all that came with it. The caller also
    /// aborts the push channel and clears any saved credentials.
    pub fn logout(&mut self)
        ensures
            logged_out(*final(self)),
            final(self).auto_login_done == old(self).auto_login_done,
    {
        self.client = None;
        self.mailboxes = Vec::new();
        self.selected_mailbox = None;
        self.identities = Vec::new();
        self.reply_to_email = None;
        self.reply_all = false;
        self.email_state = None;
        self.mailbox_state = None;
        self.email_refresh_trigger = 0;
    }
}

/// Applies a state change notification, and says whether the mailbox list
/// must be fetched again.
///
/// Only the changes for the logged-in account count. When emails changed,
/// the refresh counter moves on and the new email state is kept; nothing is
/// fetched here, and no list of what changed is worked out.
pub fn handle_state_change(state: &mut AppState, change: &StateChange) -> (r: bool)
    ensures
        ({
            let changes = match old(state).client {
                Some(c) => changes_for(*change, c.account_id@),
                None => None,
            };
            match changes {
                None => !r && *final(state) == *old(state),
                Some(types) => {
                    &&& r == (lookup(types, "Mailbox"@) is Some)
                    &&& match lookup(types, "Email"@) {
                        Some(token) => final(state).email_refresh_trigger == next_count(
                            old(state).email_refresh_trigger,
                        ) && (final(state).email_state matches Some(s) && s@ == token),
                        None => final(state).email_refresh_trigger
                            == old(state).email_refresh_trigger && final(state).email_state
                            == old(state).email_state,
                    }
                    &&& *final(state) == (AppState {
                        email_refresh_trigger: final(state).email_refresh_trigger,
                        email_state: final(state).email_state,
                        ..*old(state)
                    })
                },
            }
        }),
{
    let types = match &state.client {
        Some(c) => match find_key(&change.changed, c.account_id.as_str()) {
            Some(i) => {
                proof {
                    lemma_lookup_changed(change.changed@, c.account_id@, i as int);
                }
                &change.changed[i].1
            },
            None => {
                proof {
                    lemma_lookup_changed(change.changed@, c.account_id@, change.changed@.len() as int);
                }
                return false;
            },
        },
        None => return false,
    };
    let mailbox_changed = match find_key(types, "Mailbox") {
        Some(i) => {
            proof {
                crate::client::lemma_lookup_pairs(types@, "Mailbox"@, i as int);
            }
            true
        },
        None => {
            proof {
                crate::client::lemma_lookup_pairs(types@, "Mailbox"@, types@.len() as int);
            }
            false
        },
    };
    match find_key(types, "Email") {
        Some(i) => {
            proof {
                crate::client::lemma_lookup_pairs(types@, "Email"@, i as int);
            }
            let t = state.email_refresh_trigger;
            state.email_refresh_trigger = if t == u64::MAX {
                0
            } else {
                t + 1
            };
            state.email_state = Some(types[i].1.clone());
        },
        None => {
            proof {
                crate::client::lemma_lookup_pairs(types@, "Email"@, types@.len() as int);
            }
        },
    }
    mailbox_changed
}

/// `lookup` on a notification finds its first entry under `key`.
proof fn lemma_lookup_changed(l: Seq<(String, Vec<(String, String)>)>, key: Seq<char>, n: int)
    requires
        0 <= n <= l.len(),
        forall|j: int| 0 <= j < n ==> #[trigger] l[j].0@ != key,
        n < l.len() ==> l[n].0@ == key,
    ensures
        n < l.len() ==> lookup(changed_view(l), key) == Some(text_pairs_view(l[n].1@)),
        n == l.len() ==> lookup(changed_view(l), key) is None,
{
    let m = changed_view(l);
    lemma_lookup_skip(m, key, n);
    if n < l.len() {
        let s = m.subrange(n, m.len() as int);
        assert(s[0] == m[n]);
    } else {
        assert(m.subrange(n, m.len() as int).len() == 0);
    }
}

} // verus!
