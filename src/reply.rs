//! Starting a reply: who it goes to, its subject, and the quoted original.
use vstd::prelude::*;
use vstd::string::StringExecFns;

use crate::display::shown_address;
use crate::mail::{AddressView, Email, EmailAddress, EmailView};
use crate::text::{has_prefix, same_text, starts_with};
use crate::value::{find_key, lookup, lemma_lookup_skip};

verus! {

/// The subject of a reply: the original one, with `Re: ` in front unless it
/// is there already.
pub open spec fn reply_subject_of(s: Seq<char>) -> Seq<char> {
    if has_prefix(s, "Re: "@) {
        s
    } else {
        "Re: "@ + s
    }
}

/// `parts` joined by `sep`.
pub open spec fn join(parts: Seq<Seq<char>>, sep: Seq<char>) -> Seq<char>
    decreases parts.len(),
{
    if parts.len() == 0 {
        Seq::empty()
    } else if parts.len() == 1 {
        parts[0]
    } else {
        join(parts.drop_last(), sep) + sep + parts.last()
    }
}

/// The emails of `addrs`, leaving out `me` when it is given.
pub open spec fn emails_except(addrs: Seq<AddressView>, me: Option<Seq<char>>) -> Seq<Seq<char>>
    decreases addrs.len(),
{
    if addrs.len() == 0 {
        Seq::empty()
    } else {
        let rest = emails_except(addrs.drop_last(), me);
        if me == Some(addrs.last().email) {
            rest
        } else {
            rest.push(addrs.last().email)
        }
    }
}

/// A list of addresses that may be missing, as a list.
pub open spec fn addresses_or_none(a: Option<Seq<AddressView>>) -> Seq<AddressView> {
    match a {
        Some(l) => l,
        None => Seq::empty(),
    }
}

/// The recipients of a reply, as typed in the form: the sender of the
/// original; for a reply to all, also its other recipients but the user,
/// with its copy recipients but the user kept as copy recipients.
pub open spec fn reply_to_of(e: EmailView, me: Seq<char>, all: bool) -> (Seq<char>, Seq<char>) {
    let from = emails_except(addresses_or_none(e.from), None);
    if all {
        (
            join(from + emails_except(addresses_or_none(e.to), Some(me)), ", "@),
            join(emails_except(addresses_or_none(e.cc), Some(me)), ", "@),
        )
    } else {
        (join(from, ", "@), Seq::empty())
    }
}

/// The lines of `s`: split at line feeds, a carriage return before a line
/// feed dropped, and no empty line after a final line feed.
pub open spec fn lines_of(s: Seq<char>) -> Seq<Seq<char>>
    decreases s.len(),
{
    if s.len() == 0 {
        Seq::empty()
    } else {
        let k = first_line_end(s);
        let line = if k > 0 && s[k - 1] == '\r' && k < s.len() {
            s.subrange(0, k - 1)
        } else {
            s.subrange(0, k)
        };
        if 0 <= k < s.len() {
            seq![line] + lines_of(s.subrange(k + 1, s.len() as int))
        } else {
            seq![line]
        }
    }
}

/// The position of the first line feed of `s`, or its length.
pub open spec fn first_line_end(s: Seq<char>) -> int
    decreases s.len(),
{
    if s.len() == 0 || s[0] == '\n' {
        0
    } else {
        1 + first_line_end(s.drop_first())
    }
}

/// Each line with `> ` in front.
pub open spec fn quoted_lines(lines: Seq<Seq<char>>) -> Seq<Seq<char>> {
    lines.map_values(|l: Seq<char>| "> "@ + l)
}

/// The text of the first text body part, when the email carries it.
pub open spec fn first_text(e: EmailView) -> Seq<char> {
    match e.text_body {
        Some(parts) => if parts.len() > 0 {
            match (parts[0].part_id, e.body_values) {
                (Some(id), Some(values)) => match lookup(values, id) {
                    Some(v) => v.value,
                    None => Seq::empty(),
                },
                _ => Seq::empty(),
            }
        } else {
            Seq::empty()
        },
        None => Seq::empty(),
    }
}

/// The sender as shown, or nothing.
pub open spec fn first_sender(e: EmailView) -> Seq<char> {
    match e.from {
        Some(l) => if l.len() > 0 {
            shown_address(l[0])
        } else {
            Seq::empty()
        },
        None => Seq::empty(),
    }
}

/// The body of a reply: the original quoted under a line that says who
/// wrote it and when.
pub open spec fn reply_body_of(e: EmailView) -> Seq<char> {
    let date = match e.received_at {
        Some(d) => d,
        None => Seq::empty(),
    };
    "\n\nOn "@ + date + ", "@ + first_sender(e) + " wrote:\n"@ + join(
        quoted_lines(lines_of(first_text(e))),
        "\n"@,
    )
}

/// The fields of a reply form.
#[derive(Debug, Clone, PartialEq)]
pub struct ReplyDraft {
    pub to: String,
    pub cc: String,
    pub subject: String,
    pub body: String,
}

/// The subject of a reply to a message with subject `subject`.
pub fn reply_subject(subject: &str) -> (r: String)
    ensures
        r@ == reply_subject_of(subject@),
{
    if starts_with(subject, "Re: ") {
        subject.to_owned()
    } else {
        let mut r = "Re: ".to_owned();
        r.append(subject);
        r
    }
}

/// Appends `part` to a joined list, with `sep` before it unless it is the first.
fn join_push(out: &mut String, first: bool, part: &str, sep: &str, parts: Ghost<Seq<Seq<char>>>)
    requires
        old(out)@ == join(parts@, sep@),
        first == (parts@.len() == 0),
    ensures
        final(out)@ == join(parts@.push(part@), sep@),
{
    let ghost next = parts@.push(part@);
    assert(next.drop_last() =~= parts@);
    if first {
        assert(old(out)@ =~= Seq::<char>::empty());
        out.append(part);
        assert(final(out)@ =~= part@);
    } else {
        out.append(sep);
        out.append(part);
    }
}

/// Appends the emails of `addrs` but `me` to a joined list, and says
/// whether the list is still empty.
fn join_emails(
    out: &mut String,
    first: bool,
    addrs: &Vec<EmailAddress>,
    me: Option<&str>,
    parts: Ghost<Seq<Seq<char>>>,
) -> (r: bool)
    requires
        old(out)@ == join(parts@, ", "@),
        first == (parts@.len() == 0),
    ensures
        final(out)@ == join(
            parts@ + emails_except(
                addrs@.map_values(|a: EmailAddress| a@),
                match me {
                    Some(m) => Some(m@),
                    None => None,
                },
            ),
            ", "@,
        ),
        r == ((parts@ + emails_except(
            addrs@.map_values(|a: EmailAddress| a@),
            match me {
                Some(m) => Some(m@),
                None => None,
            },
        )).len() == 0),
{
    let ghost views = addrs@.map_values(|a: EmailAddress| a@);
    let ghost m = match me {
        Some(m) => Some(m@),
        None => None,
    };
    let mut none_yet = first;
    let mut i: usize = 0;
    assert(views.subrange(0, 0) =~= Seq::<AddressView>::empty());
    assert(parts@ + emails_except(views.subrange(0, 0), m) =~= parts@);
    while i < addrs.len()
        invariant
            views == addrs@.map_values(|a: EmailAddress| a@),
            m == match me {
                Some(m) => Some(m@),
                None => None,
            },
            i <= addrs@.len(),
            none_yet == ((parts@ + emails_except(views.subrange(0, i as int), m)).len() == 0),
            out@ == join(parts@ + emails_except(views.subrange(0, i as int), m), ", "@),
        decreases addrs.len() - i,
    {
        let ghost before = parts@ + emails_except(views.subrange(0, i as int), m);
        assert(views.subrange(0, i + 1).drop_last() =~= views.subrange(0, i as int));
        assert(views.subrange(0, i + 1).last() == addrs@[i as int]@);
        let skip = match me {
            Some(x) => same_text(addrs[i].email.as_str(), x),
            None => false,
        };
        if !skip {
            join_push(out, none_yet, addrs[i].email.as_str(), ", ", Ghost(before));
            assert(before.push(addrs@[i as int].email@) =~= parts@ + emails_except(
                views.subrange(0, i + 1),
                m,
            ));
            none_yet = false;
        } else {
            assert(before =~= parts@ + emails_except(views.subrange(0, i + 1), m));
        }
        i += 1;
    }
    assert(views.subrange(0, addrs@.len() as int) =~= views);
    none_yet
}

/// The first line of `s` and what follows its line feed, if any.
fn split_line(s: &str) -> (r: (String, Option<usize>))
    requires
        s@.len() > 0,
    ensures
        r.0@ == ({
            let k = first_line_end(s@);
            if k > 0 && s@[k - 1] == '\r' && k < s@.len() {
                s@.subrange(0, k - 1)
            } else {
                s@.subrange(0, k)
            }
        }),
        match r.1 {
            Some(k) => k as int == first_line_end(s@) && k < s@.len(),
            None => first_line_end(s@) == s@.len(),
        },
{
    let n = s.unicode_len();
    let mut k: usize = 0;
    assert(s@.subrange(0, n as int) =~= s@);
    while k < n && s.get_char(k) != '\n'
        invariant
            n == s@.len(),
            k <= n,
            first_line_end(s@) == k + first_line_end(s@.subrange(k as int, n as int)),
        decreases n - k,
    {
        assert(s@.subrange(k as int, n as int).drop_first() =~= s@.subrange(k + 1, n as int));
        k += 1;
    }
    assert(first_line_end(s@.subrange(k as int, n as int)) == 0);
    let end = if k > 0 && k < n && s.get_char(k - 1) == '\r' {
        k - 1
    } else {
        k
    };
    let line = s.substring_char(0, end).to_owned();
    if k < n {
        (line, Some(k))
    } else {
        (line, None)
    }
}

/// The lines of `s`, each with `> ` in front, joined by line feeds.
pub fn quote(s: &str) -> (r: String)
    ensures
        r@ == join(quoted_lines(lines_of(s@)), "\n"@),
{
    let mut out = String::new();
    let mut rest = s.to_owned();
    let mut first = true;
    let ghost done: Seq<Seq<char>> = Seq::empty();
    assert(done + lines_of(rest@) =~= lines_of(s@));
    while rest.as_str().unicode_len() > 0
        invariant
            done + lines_of(rest@) == lines_of(s@),
            out@ == join(quoted_lines(done), "\n"@),
            first == (done.len() == 0),
        decreases rest@.len(),
    {
        let (line, next) = split_line(rest.as_str());
        let mut q = "> ".to_owned();
        q.append(line.as_str());
        let ghost before = done;
        join_push(&mut out, first, q.as_str(), "\n", Ghost(quoted_lines(before)));
        first = false;
        proof {
            done = before.push(line@);
            assert(quoted_lines(before).push(q@) =~= quoted_lines(done));
        }
        let ghost r0 = rest@;
        match next {
            Some(k) => {
                let tail = rest.as_str().substring_char(k + 1, rest.as_str().unicode_len()).to_owned();
                assert(lines_of(r0) == seq![line@] + lines_of(tail@));
                assert(done + lines_of(tail@) =~= before + lines_of(r0));
                rest = tail;
            },
            None => {
                assert(lines_of(r0) == seq![line@]);
                assert(done + lines_of(Seq::<char>::empty()) =~= before + lines_of(r0));
                rest = String::new();
            },
        }
    }
    assert(done + Seq::<Seq<char>>::empty() =~= done);
    out
}

/// The text of the first text body part of `e`, when it carries it.
pub fn first_text_body(e: &Email) -> (r: String)
    ensures
        r@ == first_text(e@),
{
    let parts = match &e.text_body {
        Some(p) => p,
        None => return String::new(),
    };
    if parts.len() == 0 {
        return String::new();
    }
    assert(e@.text_body->0[0] == parts@[0]@);
    let (id, values) = match (&parts[0].part_id, &e.body_values) {
        (Some(id), Some(values)) => (id, values),
        _ => return String::new(),
    };
    match find_key(values, id.as_str()) {
        Some(i) => {
            proof {
                lemma_lookup_values(values@, id@, i as int);
            }
            values[i].1.value.clone()
        },
        None => {
            proof {
                lemma_lookup_values(values@, id@, values@.len() as int);
            }
            String::new()
        },
    }
}

proof fn lemma_lookup_values(l: Seq<(String, crate::mail::EmailBodyValue)>, key: Seq<char>, n: int)
    requires
        0 <= n <= l.len(),
        forall|j: int| 0 <= j < n ==> #[trigger] l[j].0@ != key,
        n < l.len() ==> l[n].0@ == key,
    ensures
        n < l.len() ==> lookup(
            l.map_values(|p: (String, crate::mail::EmailBodyValue)| (p.0@, p.1@)),
            key,
        ) == Some(l[n].1@),
        n == l.len() ==> lookup(
            l.map_values(|p: (String, crate::mail::EmailBodyValue)| (p.0@, p.1@)),
            key,
        ) is None,
{
    let m = l.map_values(|p: (String, crate::mail::EmailBodyValue)| (p.0@, p.1@));
    lemma_lookup_skip(m, key, n);
    if n < l.len() {
        let s = m.subrange(n, m.len() as int);
        assert(s[0] == m[n]);
    } else {
        assert(m.subrange(n, m.len() as int).len() == 0);
    }
}

/// The form of a reply to `email` from the user whose address is
/// `my_email`: to its sender, or with `reply_all` to all its recipients but
/// the user, under its subject, with the original quoted.
pub fn reply_draft(email: &Email, my_email: &str, reply_all: bool) -> (r: ReplyDraft)
    ensures
        r.subject@ == reply_subject_of(
            match email@.subject {
                Some(s) => s,
                None => Seq::empty(),
            },
        ),
        (r.to@, r.cc@) == reply_to_of(email@, my_email@, reply_all),
        r.body@ == reply_body_of(email@),
{
    let subject = match &email.subject {
        Some(s) => reply_subject(s.as_str()),
        None => {
            proof {
                reveal_strlit("");
            }
            reply_subject("")
        },
    };
    let none: Vec<EmailAddress> = Vec::new();
    let from = match &email.from {
        Some(l) => l,
        None => &none,
    };
    let to_list = match &email.to {
        Some(l) => l,
        None => &none,
    };
    let cc_list = match &email.cc {
        Some(l) => l,
        None => &none,
    };
    assert(none@.map_values(|a: EmailAddress| a@) =~= Seq::<AddressView>::empty());
    let ghost from_parts = emails_except(addresses_or_none(email@.from), None);
    let mut to = String::new();
    let none_yet = join_emails(&mut to, true, from, None, Ghost(Seq::empty()));
    assert(Seq::<Seq<char>>::empty() + from_parts =~= from_parts);
    let mut cc = String::new();
    if reply_all {
        join_emails(&mut to, none_yet, to_list, Some(my_email), Ghost(from_parts));
        join_emails(&mut cc, true, cc_list, Some(my_email), Ghost(Seq::empty()));
        assert(Seq::<Seq<char>>::empty() + emails_except(addresses_or_none(email@.cc), Some(my_email@))
            =~= emails_except(addresses_or_none(email@.cc), Some(my_email@)));
    }
    let mut body = "\n\nOn ".to_owned();
    match &email.received_at {
        Some(d) => body.append(d.as_str()),
        None => {},
    }
    body.append(", ");
    let sender = match &email.from {
        Some(l) => if l.len() > 0 {
            l[0].display_string()
        } else {
            String::new()
        },
        None => String::new(),
    };
    body.append(sender.as_str());
    body.append(" wrote:\n");
    let quoted = quote(first_text_body(email).as_str());
    body.append(quoted.as_str());
    ReplyDraft { to, cc, subject, body }
}

} // verus!
