//! The session: what the server offers, fetched once when connecting.
use vstd::prelude::*;

use crate::decode::{
    opt_view, texts_view, text_pairs_view, req_text, opt_text, req_flag, key_set, req_key_set,
    map_of, text_item, get_req_text, get_opt_text, get_req_flag, get_key_set, get_req_key_set,
    get_text_map,
};
use crate::value::{Json, Value, entry_views, lemma_entry_views};

verus! {

/// The capabilities, accounts and endpoints that a server offers.
#[derive(Debug, Clone, PartialEq)]
pub struct Session {
    /// The URIs of the capabilities the server supports.
    pub capabilities: Vec<String>,
    /// The accounts the user can reach, by account id.
    pub accounts: Vec<(String, Account)>,
    /// For each capability URI, the id of the account to use it with.
    pub primary_accounts: Vec<(String, String)>,
    pub username: String,
    pub api_url: String,
    pub download_url: String,
    pub upload_url: String,
    /// A template for the URL of the push channel, when the server has one.
    pub event_source_url: Option<String>,
    /// An opaque token that changes when the session does.
    pub state: String,
}

/// An account the user can reach.
#[derive(Debug, Clone, PartialEq)]
pub struct Account {
    pub name: String,
    pub is_personal: bool,
    pub is_read_only: bool,
    /// The URIs of the capabilities that apply to this account.
    pub account_capabilities: Vec<String>,
}

pub open spec fn accounts_view(l: Seq<(String, Account)>) -> Seq<(Seq<char>, AccountView)> {
    l.map_values(|p: (String, Account)| (p.0@, p.1@))
}

pub fn get_accounts(v: &Value, key: &str) -> (r: Option<Vec<(String, Account)>>)
    ensures
        match r {
            Some(l) => map_of(v@.get(key@), |j: Json| account_of(j)) == Some(accounts_view(l@)),
            None => map_of(v@.get(key@), |j: Json| account_of(j)) is None,
        },
{
    let e = match v.get(key) {
        Some(Value::Object(e)) => e,
        _ => return None,
    };
    proof {
        lemma_entry_views(e@);
    }
    let ghost m = entry_views(e@);
    let mut out: Vec<(String, Account)> = Vec::new();
    let mut i: usize = 0;
    while i < e.len()
        invariant
            v@.get(key@) == Some(Json::Object(m)),
            m.len() == e@.len(),
            forall|j: int| 0 <= j < e@.len() ==> #[trigger] m[j] == (e@[j].0@, e@[j].1@),
            i <= e.len(),
            out@.len() == i,
            forall|j: int| 0 <= j < i ==> (#[trigger] account_of(m[j].1)) is Some,
            forall|j: int|
                0 <= j < i ==> #[trigger] out@[j].0@ == m[j].0 && Some(out@[j].1@) == account_of(
                    m[j].1,
                ),
        decreases e.len() - i,
    {
        assert(m[i as int] == (e@[i as int].0@, e@[i as int].1@));
        match Account::from_value(&e[i].1) {
            Some(x) => out.push((e[i].0.clone(), x)),
            None => {
                assert(account_of(m[i as int].1) is None);
                return None;
            },
        }
        i += 1;
    }
    proof {
        assert(accounts_view(out@) =~= m.map_values(
            |p: (Seq<char>, Json)| (p.0, account_of(p.1)->0),
        ));
    }
    Some(out)
}

/// The model of an account.
pub struct AccountView {
    pub name: Seq<char>,
    pub is_personal: bool,
    pub is_read_only: bool,
    pub account_capabilities: Seq<Seq<char>>,
}

impl View for Account {
    type V = AccountView;

    open spec fn view(&self) -> AccountView {
        AccountView {
            name: self.name@,
            is_personal: self.is_personal,
            is_read_only: self.is_read_only,
            account_capabilities: texts_view(self.account_capabilities@),
        }
    }
}

/// An account that an object encodes, when every field reads.
pub open spec fn account_of(j: Json) -> Option<AccountView> {
    if j is Object
        && (req_text(j.get("name"@))) is Some
        && (req_flag(j.get("isPersonal"@))) is Some
        && (req_flag(j.get("isReadOnly"@))) is Some
        && (key_set(j.get("accountCapabilities"@))) is Some {
        Some(AccountView {
            name: (req_text(j.get("name"@)))->0,
            is_personal: (req_flag(j.get("isPersonal"@)))->0,
            is_read_only: (req_flag(j.get("isReadOnly"@)))->0,
            account_capabilities: (key_set(j.get("accountCapabilities"@)))->0,
        })
    } else {
        None
    }
}

impl Account {
    /// The record that `v` encodes, when every field reads.
    pub fn from_value(v: &Value) -> (r: Option<Account>)
        ensures
            match r {
                Some(x) => account_of(v@) == Some(x@),
                None => account_of(v@) is None,
            },
    {
        if !matches!(v, Value::Object(_)) {
            return None;
        }
        let name = match get_req_text(v, "name") {
            Some(x) => x,
            None => return None,
        };
        let is_personal = match get_req_flag(v, "isPersonal") {
            Some(x) => x,
            None => return None,
        };
        let is_read_only = match get_req_flag(v, "isReadOnly") {
            Some(x) => x,
            None => return None,
        };
        let account_capabilities = match get_key_set(v, "accountCapabilities") {
            Some(x) => x,
            None => return None,
        };
        Some(Account { name, is_personal, is_read_only, account_capabilities })
    }
}

/// The model of a session.
pub struct SessionView {
    pub capabilities: Seq<Seq<char>>,
    pub accounts: Seq<(Seq<char>, AccountView)>,
    pub primary_accounts: Seq<(Seq<char>, Seq<char>)>,
    pub username: Seq<char>,
    pub api_url: Seq<char>,
    pub download_url: Seq<char>,
    pub upload_url: Seq<char>,
    pub event_source_url: Option<Seq<char>>,
    pub state: Seq<char>,
}

impl View for Session {
    type V = SessionView;

    open spec fn view(&self) -> SessionView {
        SessionView {
            capabilities: texts_view(self.capabilities@),
            accounts: accounts_view(self.accounts@),
            primary_accounts: text_pairs_view(self.primary_accounts@),
            username: self.username@,
            api_url: self.api_url@,
            download_url: self.download_url@,
            upload_url: self.upload_url@,
            event_source_url: opt_view(self.event_source_url),
            state: self.state@,
        }
    }
}

/// A session that an object encodes, when every field reads.
pub open spec fn session_of(j: Json) -> Option<SessionView> {
    if j is Object
        && (req_key_set(j.get("capabilities"@))) is Some
        && (map_of(j.get("accounts"@), |j: Json| account_of(j))) is Some
        && (map_of(j.get("primaryAccounts"@), |j: Json| text_item(j))) is Some
        && (req_text(j.get("username"@))) is Some
        && (req_text(j.get("apiUrl"@))) is Some
        && (req_text(j.get("downloadUrl"@))) is Some
        && (req_text(j.get("uploadUrl"@))) is Some
        && (opt_text(j.get("eventSourceUrl"@))) is Some
        && (req_text(j.get("state"@))) is Some {
        Some(SessionView {
            capabilities: (req_key_set(j.get("capabilities"@)))->0,
            accounts: (map_of(j.get("accounts"@), |j: Json| account_of(j)))->0,
            primary_accounts: (map_of(j.get("primaryAccounts"@), |j: Json| text_item(j)))->0,
            username: (req_text(j.get("username"@)))->0,
            api_url: (req_text(j.get("apiUrl"@)))->0,
            download_url: (req_text(j.get("downloadUrl"@)))->0,
            upload_url: (req_text(j.get("uploadUrl"@)))->0,
            event_source_url: (opt_text(j.get("eventSourceUrl"@)))->0,
            state: (req_text(j.get("state"@)))->0,
        })
    } else {
        None
    }
}

impl Session {
    /// The record that `v` encodes, when every field reads.
    pub fn from_value(v: &Value) -> (r: Option<Session>)
        ensures
            match r {
                Some(x) => session_of(v@) == Some(x@),
                None => session_of(v@) is None,
            },
    {
        if !matches!(v, Value::Object(_)) {
            return None;
        }
        let capabilities = match get_req_key_set(v, "capabilities") {
            Some(x) => x,
            None => return None,
        };
        let accounts = match get_accounts(v, "accounts") {
            Some(x) => x,
            None => return None,
        };
        let primary_accounts = match get_text_map(v, "primaryAccounts") {
            Some(x) => x,
            None => return None,
        };
        let username = match get_req_text(v, "username") {
            Some(x) => x,
            None => return None,
        };
        let api_url = match get_req_text(v, "apiUrl") {
            Some(x) => x,
            None => return None,
        };
        let download_url = match get_req_text(v, "downloadUrl") {
            Some(x) => x,
            None => return None,
        };
        let upload_url = match get_req_text(v, "uploadUrl") {
            Some(x) => x,
            None => return None,
        };
        let event_source_url = match get_opt_text(v, "eventSourceUrl") {
            Some(x) => x,
            None => return None,
        };
        let state = match get_req_text(v, "state") {
            Some(x) => x,
            None => return None,
        };
        Some(Session { capabilities, accounts, primary_accounts, username, api_url, download_url, upload_url, event_source_url, state })
    }
}

} // verus!
