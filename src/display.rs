//! How addresses, dates and mailboxes are shown, and how typed recipient
//! lists are read.
use vstd::prelude::*;
use vstd::string::StringExecFns;

use crate::mail::{AddressView, EmailAddress};
use crate::text::{trim, trim_space};

verus! {

/// An address as shown: `name <email>` when it has a name, the bare email otherwise.
pub open spec fn shown_address(a: AddressView) -> Seq<char> {
    match a.name {
        Some(n) => if n.len() > 0 {
            n + " <"@ + a.email + ">"@
        } else {
            a.email
        },
        None => a.email,
    }
}

/// The pieces of `s` between commas, in order; there is always at least one.
pub open spec fn comma_pieces(s: Seq<char>) -> Seq<Seq<char>>
    decreases s.len(),
{
    if s.len() == 0 {
        seq![Seq::empty()]
    } else {
        let p = comma_pieces(s.drop_last());
        if s.last() == ',' {
            p.push(Seq::empty())
        } else if p.len() > 0 {
            p.update(p.len() - 1, p.last().push(s.last()))
        } else {
            p
        }
    }
}

/// The pieces without their surrounding white space, leaving out the empty ones.
pub open spec fn kept(pieces: Seq<Seq<char>>) -> Seq<Seq<char>>
    decreases pieces.len(),
{
    if pieces.len() == 0 {
        Seq::empty()
    } else {
        let k = kept(pieces.drop_last());
        let t = trim_space(pieces.last());
        if t.len() > 0 {
            k.push(t)
        } else {
            k
        }
    }
}

/// The addresses typed in a comma-separated list.
pub open spec fn typed_addresses(s: Seq<char>) -> Seq<AddressView> {
    kept(comma_pieces(s)).map_values(|e: Seq<char>| AddressView { name: None, email: e })
}

/// The date part of a timestamp: what comes before the first `T`.
pub open spec fn date_part(s: Seq<char>) -> Seq<char>
    decreases s.len(),
{
    if s.len() == 0 || s[0] == 'T' {
        Seq::empty()
    } else {
        seq![s[0]] + date_part(s.drop_first())
    }
}

/// Where a mailbox with `role` comes among its siblings: inbox, drafts, sent,
/// junk, trash, then other roles, then mailboxes without one.
pub open spec fn role_rank(role: Option<Seq<char>>) -> u32 {
    match role {
        Some(r) => if r == "inbox"@ {
            0
        } else if r == "drafts"@ {
            1
        } else if r == "sent"@ {
            2
        } else if r == "junk"@ {
            3
        } else if r == "trash"@ {
            4
        } else {
            5
        },
        None => 6,
    }
}

impl EmailAddress {
    /// The address as shown: `name <email>`, or the bare email when the name
    /// is missing or empty.
    pub fn display_string(&self) -> (r: String)
        ensures
            r@ == shown_address(self@),
    {
        match &self.name {
            Some(n) => {
                if n.as_str().unicode_len() > 0 {
                    let mut r = n.clone();
                    r.append(" <");
                    r.append(self.email.as_str());
                    r.append(">");
                    r
                } else {
                    self.email.clone()
                }
            },
            None => self.email.clone(),
        }
    }
}

/// The addresses typed in a comma-separated list, without names.
pub fn parse_addresses(input: &str) -> (r: Vec<EmailAddress>)
    ensures
        r@.map_values(|a: EmailAddress| a@) == typed_addresses(input@),
{
    let n = input.unicode_len();
    let mut out: Vec<EmailAddress> = Vec::new();
    let mut current = String::new();
    let mut i: usize = 0;
    proof {
        assert(input@.subrange(0, 0) =~= Seq::<char>::empty());
        assert(comma_pieces(Seq::<char>::empty()).drop_last() =~= Seq::<Seq<char>>::empty());
    }
    while i < n
        invariant
            n == input@.len(),
            i <= n,
            comma_pieces(input@.subrange(0, i as int)).len() >= 1,
            comma_pieces(input@.subrange(0, i as int)).last() == current@,
            out@.map_values(|a: EmailAddress| a@) == kept(
                comma_pieces(input@.subrange(0, i as int)).drop_last(),
            ).map_values(|e: Seq<char>| AddressView { name: None, email: e }),
        decreases n - i,
    {
        let c = input.get_char(i);
        let ghost before = input@.subrange(0, i as int);
        let ghost after = input@.subrange(0, i + 1);
        assert(after.drop_last() =~= before);
        assert(after.last() == c);
        let ghost p = comma_pieces(before);
        if c == ',' {
            let t = trim(current.as_str());
            let ghost k = kept(p.drop_last());
            assert(comma_pieces(after) == p.push(Seq::empty()));
            assert(p.push(Seq::<char>::empty()).drop_last() =~= p);
            assert(p.drop_last().push(p.last()) =~= p);
            assert(kept(p) == if trim_space(p.last()).len() > 0 {
                k.push(trim_space(p.last()))
            } else {
                k
            });
            if t.unicode_len() > 0 {
                let ghost old_out = out@;
                out.push(EmailAddress { name: None, email: t.to_owned() });
                assert(out@.map_values(|a: EmailAddress| a@) =~= old_out.map_values(
                    |a: EmailAddress| a@,
                ).push(AddressView { name: None, email: t@ }));
                assert(k.push(t@).map_values(|e: Seq<char>| AddressView { name: None, email: e })
                    =~= k.map_values(|e: Seq<char>| AddressView { name: None, email: e }).push(
                    AddressView { name: None, email: t@ },
                ));
            }
            current = String::new();
        } else {
            assert(comma_pieces(after) == p.update(p.len() - 1, p.last().push(c)));
            assert(p.update(p.len() - 1, p.last().push(c)).drop_last() =~= p.drop_last());
            current.push(c);
        }
        i += 1;
    }
    let ghost all = input@.subrange(0, n as int);
    assert(all =~= input@);
    let ghost p = comma_pieces(all);
    let ghost k = kept(p.drop_last());
    assert(p.drop_last().push(p.last()) =~= p);
    assert(kept(p) == if trim_space(p.last()).len() > 0 {
        k.push(trim_space(p.last()))
    } else {
        k
    });
    let t = trim(current.as_str());
    if t.unicode_len() > 0 {
        let ghost old_out = out@;
        out.push(EmailAddress { name: None, email: t.to_owned() });
        assert(out@.map_values(|a: EmailAddress| a@) =~= old_out.map_values(|a: EmailAddress| a@).push(
            AddressView { name: None, email: t@ },
        ));
        assert(k.push(t@).map_values(|e: Seq<char>| AddressView { name: None, email: e })
            =~= k.map_values(|e: Seq<char>| AddressView { name: None, email: e }).push(
            AddressView { name: None, email: t@ },
        ));
    }
    out
}

/// The date part of a timestamp such as `2024-01-15T10:30:00Z`: what comes
/// before the first `T`, or all of it when there is none.
pub fn format_date(date_str: &str) -> (r: String)
    ensures
        r@ == date_part(date_str@),
{
    let n = date_str.unicode_len();
    let mut i: usize = 0;
    assert(date_str@.subrange(0, n as int) =~= date_str@);
    assert(date_str@.subrange(0, 0) + date_part(date_str@) =~= date_part(date_str@));
    while i < n && date_str.get_char(i) != 'T'
        invariant
            n == date_str@.len(),
            i <= n,
            date_str@.subrange(0, i as int) + date_part(date_str@.subrange(i as int, n as int))
                == date_part(date_str@),
        decreases n - i,
    {
        let ghost rest = date_str@.subrange(i as int, n as int);
        assert(rest.drop_first() =~= date_str@.subrange(i + 1, n as int));
        assert(date_str@.subrange(0, i + 1) =~= date_str@.subrange(0, i as int) + seq![rest[0]]);
        assert(date_str@.subrange(0, i + 1) + date_part(date_str@.subrange(i + 1, n as int))
            =~= date_str@.subrange(0, i as int) + (seq![rest[0]] + date_part(rest.drop_first())));
        i += 1;
    }
    assert(date_part(date_str@.subrange(i as int, n as int)) =~= Seq::<char>::empty());
    assert(date_str@.subrange(0, i as int) + Seq::<char>::empty() =~= date_str@.subrange(0, i as int));
    date_str.substring_char(0, i).to_owned()
}

/// Where a mailbox with `role` comes among its siblings.
pub fn role_sort_order(role: Option<&str>) -> (r: u32)
    ensures
        r == role_rank(match role {
            Some(s) => Some(s@),
            None => None,
        }),
{
    match role {
        Some(r) => {
            if crate::text::same_text(r, "inbox") {
                0
            } else if crate::text::same_text(r, "drafts") {
                1
            } else if crate::text::same_text(r, "sent") {
                2
            } else if crate::text::same_text(r, "junk") {
                3
            } else if crate::text::same_text(r, "trash") {
                4
            } else {
                5
            }
        },
        None => 6,
    }
}

} // verus!
