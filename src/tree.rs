//! The mailbox tree, flattened for display: each mailbox after its parent,
//! siblings in a fixed order.
use vstd::prelude::*;

use crate::decode::opt_view;
use crate::display::{role_rank, role_sort_order};
use crate::mail::Mailbox;

verus! {

/// Whether `a` comes before `b` or equals it, character by character.
pub open spec fn text_le(a: Seq<char>, b: Seq<char>) -> bool
    decreases a.len(),
{
    if a.len() == 0 {
        true
    } else if b.len() == 0 {
        false
    } else if a[0] != b[0] {
        (a[0] as u32) < (b[0] as u32)
    } else {
        text_le(a.drop_first(), b.drop_first())
    }
}

/// Whether `a` may come before `b` among siblings: by role, then sort order,
/// then name.
pub open spec fn sibling_le(a: Mailbox, b: Mailbox) -> bool {
    let ra = role_rank(opt_view(a.role));
    let rb = role_rank(opt_view(b.role));
    if ra != rb {
        ra < rb
    } else if a.sort_order != b.sort_order {
        a.sort_order < b.sort_order
    } else {
        text_le(a.name@, b.name@)
    }
}

/// `sorted` with the position `x` of `ms` put after every position whose
/// mailbox may come before it, and before the others.
pub open spec fn insert_sorted(ms: Seq<Mailbox>, sorted: Seq<usize>, x: usize) -> Seq<usize>
    decreases sorted.len(),
{
    if sorted.len() == 0 {
        seq![x]
    } else if sibling_le(ms[sorted.last() as int], ms[x as int]) {
        sorted.push(x)
    } else {
        insert_sorted(ms, sorted.drop_last(), x).push(sorted.last())
    }
}

/// The positions `ps` of `ms` in sibling order; equal ones keep their order.
pub open spec fn sort_siblings(ms: Seq<Mailbox>, ps: Seq<usize>) -> Seq<usize>
    decreases ps.len(),
{
    if ps.len() == 0 {
        Seq::empty()
    } else {
        insert_sorted(ms, sort_siblings(ms, ps.drop_last()), ps.last())
    }
}

/// The positions of the mailboxes among the first `n` of `ms` whose parent is `parent`.
pub open spec fn children_upto(ms: Seq<Mailbox>, parent: Option<Seq<char>>, n: int) -> Seq<usize>
    decreases n,
{
    if n <= 0 {
        Seq::empty()
    } else {
        let c = children_upto(ms, parent, n - 1);
        if opt_view(ms[n - 1].parent_id) == parent {
            c.push((n - 1) as usize)
        } else {
            c
        }
    }
}

/// The children of `parent`, in sibling order.
pub open spec fn children(ms: Seq<Mailbox>, parent: Option<Seq<char>>) -> Seq<usize> {
    sort_siblings(ms, children_upto(ms, parent, ms.len() as int))
}

/// Each mailbox of the subtrees under the positions `cs`, in order: a mailbox
/// at `depth`, then its own children one level deeper. Nothing is listed
/// below the depth of the number of mailboxes, which no tree reaches.
pub open spec fn flatten(ms: Seq<Mailbox>, cs: Seq<usize>, depth: nat) -> Seq<(usize, u32)>
    decreases ms.len() - depth, cs.len(),
{
    if depth >= ms.len() || cs.len() == 0 {
        Seq::empty()
    } else {
        let first = cs[0];
        let below = if 0 <= first < ms.len() {
            flatten(ms, children(ms, Some(ms[first as int].id@)), depth + 1)
        } else {
            Seq::empty()
        };
        seq![(first, depth as u32)] + below + flatten(ms, cs.drop_first(), depth)
    }
}

/// Whether `a` comes before `b` or equals it, character by character.
pub fn text_before_or_equal(a: &str, b: &str) -> (r: bool)
    ensures
        r == text_le(a@, b@),
{
    let n = a.unicode_len();
    let m = b.unicode_len();
    let mut i: usize = 0;
    proof {
        lemma_text_le_start(a@, b@);
    }
    while i < n && i < m && a.get_char(i) == b.get_char(i)
        invariant
            n == a@.len(),
            m == b@.len(),
            i <= n,
            i <= m,
            text_le(a@, b@) == text_le(a@.subrange(i as int, n as int), b@.subrange(i as int, m as int)),
        decreases n - i,
    {
        assert(a@.subrange(i as int, n as int).drop_first() =~= a@.subrange(i + 1, n as int));
        assert(b@.subrange(i as int, m as int).drop_first() =~= b@.subrange(i + 1, m as int));
        i += 1;
    }
    if i == n {
        true
    } else if i == m {
        false
    } else {
        (a.get_char(i) as u32) < (b.get_char(i) as u32)
    }
}

/// Comparing two texts is comparing them from their first characters on.
proof fn lemma_text_le_start(a: Seq<char>, b: Seq<char>)
    ensures
        text_le(a, b) == text_le(a.subrange(0, a.len() as int), b.subrange(0, b.len() as int)),
{
    assert(a.subrange(0, a.len() as int) =~= a);
    assert(b.subrange(0, b.len() as int) =~= b);
}

/// Whether the mailbox `a` may come before `b` among siblings.
pub fn sibling_before_or_equal(a: &Mailbox, b: &Mailbox) -> (r: bool)
    ensures
        r == sibling_le(*a, *b),
{
    let ra = role_sort_order(match &a.role {
        Some(r) => Some(r.as_str()),
        None => None,
    });
    let rb = role_sort_order(match &b.role {
        Some(r) => Some(r.as_str()),
        None => None,
    });
    if ra != rb {
        ra < rb
    } else if a.sort_order != b.sort_order {
        a.sort_order < b.sort_order
    } else {
        proof {
            lemma_text_le_start(a.name@, b.name@);
        }
        text_before_or_equal(a.name.as_str(), b.name.as_str())
    }
}

/// Inserting goes after the trailing positions that must follow `x`.
proof fn lemma_insert_at(ms: Seq<Mailbox>, sorted: Seq<usize>, x: usize, p: int)
    requires
        0 <= p <= sorted.len(),
        forall|j: int| p <= j < sorted.len() ==> !sibling_le(ms[#[trigger] sorted[j] as int], ms[x as int]),
        p > 0 ==> sibling_le(ms[sorted[p - 1] as int], ms[x as int]),
    ensures
        insert_sorted(ms, sorted, x) == sorted.subrange(0, p).push(x) + sorted.subrange(p, sorted.len() as int),
    decreases sorted.len(),
{
    if sorted.len() == 0 {
        assert(sorted.subrange(0, p).push(x) + sorted.subrange(p, sorted.len() as int) =~= seq![x]);
    } else if p == sorted.len() {
        assert(sorted.subrange(0, p) =~= sorted);
        assert(sorted.subrange(0, p).push(x) + sorted.subrange(p, sorted.len() as int) =~= sorted.push(x));
    } else {
        let s0 = sorted.drop_last();
        assert(!sibling_le(ms[sorted[sorted.len() - 1] as int], ms[x as int]));
        assert forall|j: int| p <= j < s0.len() implies !sibling_le(ms[#[trigger] s0[j] as int], ms[x as int]) by {
            assert(s0[j] == sorted[j]);
        }
        lemma_insert_at(ms, s0, x, p);
        assert(s0.subrange(0, p).push(x) + s0.subrange(p, s0.len() as int) =~= sorted.subrange(0, p).push(x) + s0.subrange(p, s0.len() as int));
        assert((sorted.subrange(0, p).push(x) + s0.subrange(p, s0.len() as int)).push(sorted.last())
            =~= sorted.subrange(0, p).push(x) + sorted.subrange(p, sorted.len() as int));
    }
}

/// Puts the position `x` of `ms` into `sorted`, after every position whose
/// mailbox may come before it.
fn insert_position(ms: &[Mailbox], sorted: &mut Vec<usize>, x: usize)
    requires
        x < ms@.len(),
        forall|j: int| 0 <= j < old(sorted)@.len() ==> #[trigger] old(sorted)@[j] < ms@.len(),
    ensures
        final(sorted)@ == insert_sorted(ms@, old(sorted)@, x),
        forall|j: int| 0 <= j < final(sorted)@.len() ==> #[trigger] final(sorted)@[j] < ms@.len(),
{
    let mut p: usize = sorted.len();
    while p > 0 && !sibling_before_or_equal(&ms[sorted[p - 1]], &ms[x])
        invariant
            p <= sorted@.len(),
            sorted@ == old(sorted)@,
            x < ms@.len(),
            forall|j: int| 0 <= j < sorted@.len() ==> #[trigger] sorted@[j] < ms@.len(),
            forall|j: int| p <= j < sorted@.len() ==> !sibling_le(ms@[#[trigger] sorted@[j] as int], ms@[x as int]),
        decreases p,
    {
        p -= 1;
    }
    proof {
        lemma_insert_at(ms@, sorted@, x, p as int);
    }
    sorted.insert(p, x);
    assert(sorted@ =~= old(sorted)@.subrange(0, p as int).push(x) + old(sorted)@.subrange(p as int, old(sorted)@.len() as int));
}

/// The positions of the children of `parent`, in sibling order.
pub fn child_positions(ms: &[Mailbox], parent: Option<&str>) -> (r: Vec<usize>)
    ensures
        r@ == children(ms@, match parent {
            Some(p) => Some(p@),
            None => None,
        }),
        forall|j: int| 0 <= j < r@.len() ==> #[trigger] r@[j] < ms@.len(),
{
    let ghost want = match parent {
        Some(p) => Some(p@),
        None => None,
    };
    let mut sorted: Vec<usize> = Vec::new();
    let mut i: usize = 0;
    while i < ms.len()
        invariant
            want == match parent {
                Some(p) => Some(p@),
                None => None,
            },
            i <= ms@.len(),
            sorted@ == sort_siblings(ms@, children_upto(ms@, want, i as int)),
            forall|j: int| 0 <= j < sorted@.len() ==> #[trigger] sorted@[j] < ms@.len(),
        decreases ms.len() - i,
    {
        let is_child = match &ms[i].parent_id {
            Some(a) => match parent {
                Some(b) => crate::text::same_text(a.as_str(), b),
                None => false,
            },
            None => parent.is_none(),
        };
        assert(is_child == (opt_view(ms@[i as int].parent_id) == want));
        if is_child {
            let ghost before = children_upto(ms@, want, i as int);
            insert_position(ms, &mut sorted, i);
            assert(children_upto(ms@, want, i + 1) == before.push(i));
            assert(before.push(i).drop_last() =~= before);
        }
        i += 1;
    }
    sorted
}

/// The mailboxes under `parent_id` (the top level for none), flattened: the
/// position in `mailboxes` of each, and its depth counted from `depth`.
/// Each mailbox comes before its children, and siblings come in sibling
/// order.
pub fn flatten_tree(mailboxes: &[Mailbox], parent_id: Option<&str>, depth: u32) -> (r: Vec<
    (usize, u32),
>)
    requires
        mailboxes@.len() <= u32::MAX,
    ensures
        r@ == flatten(
            mailboxes@,
            children(
                mailboxes@,
                match parent_id {
                    Some(p) => Some(p@),
                    None => None,
                },
            ),
            depth as nat,
        ),
    decreases mailboxes@.len() - depth,
{
    let cs = child_positions(mailboxes, parent_id);
    let ghost all = cs@;
    let mut out: Vec<(usize, u32)> = Vec::new();
    if depth as usize >= mailboxes.len() {
        return out;
    }
    let mut k: usize = 0;
    assert(all.subrange(0, all.len() as int) =~= all);
    assert(out@ + flatten(mailboxes@, all, depth as nat) =~= flatten(mailboxes@, all, depth as nat));
    while k < cs.len()
        invariant
            cs@ == all,
            k <= all.len(),
            (depth as int) < mailboxes@.len(),
            mailboxes@.len() <= u32::MAX,
            forall|j: int| 0 <= j < all.len() ==> #[trigger] all[j] < mailboxes@.len(),
            flatten(mailboxes@, all, depth as nat) == out@ + flatten(
                mailboxes@,
                all.subrange(k as int, all.len() as int),
                depth as nat,
            ),
        decreases all.len() - k,
    {
        let c = cs[k];
        let ghost rest = all.subrange(k as int, all.len() as int);
        assert(rest[0] == c);
        assert(rest.drop_first() =~= all.subrange(k + 1, all.len() as int));
        let below = flatten_tree(mailboxes, Some(mailboxes[c].id.as_str()), depth + 1);
        let ghost before = out@;
        out.push((c, depth));
        let mut j: usize = 0;
        while j < below.len()
            invariant
                j <= below@.len(),
                out@ == before.push((c, depth)) + below@.subrange(0, j as int),
            decreases below.len() - j,
        {
            out.push(below[j]);
            assert(below@.subrange(0, j + 1) =~= below@.subrange(0, j as int).push(below@[j as int]));
            assert(out@ =~= before.push((c, depth)) + below@.subrange(0, j + 1));
            j += 1;
        }
        assert(below@.subrange(0, below@.len() as int) =~= below@);
        assert(before + (seq![(c, depth)] + below@ + flatten(
            mailboxes@,
            all.subrange(k + 1, all.len() as int),
            depth as nat,
        )) =~= out@ + flatten(mailboxes@, all.subrange(k + 1, all.len() as int), depth as nat));
        k += 1;
    }
    assert(all.subrange(all.len() as int, all.len() as int) =~= Seq::<usize>::empty());
    assert(out@ + Seq::<(usize, u32)>::empty() =~= out@);
    out
}

} // verus!
