//! The schema-less argument tree carried by method calls, and its model.
use vstd::prelude::*;

use crate::text::same_text;

verus! {

/// The mathematical model of a [`Value`]: a JSON document in which numbers are
/// integers, plus a distinct node for references to objects created earlier
/// in the same request.
pub enum Json {
    Null,
    Bool(bool),
    Number(int),
    Str(Seq<char>),
    Ref(Seq<char>),
    Array(Seq<Json>),
    Object(Seq<(Seq<char>, Json)>),
}

/// A node of a method call's arguments.
///
/// Objects keep their entries in order; a key that occurs twice is read by its
/// first entry.
#[derive(Debug, PartialEq)]
pub enum Value {
    Null,
    Bool(bool),
    /// A non-negative integer.
    UInt(u64),
    /// A negative integer.
    Int(i64),
    Str(String),
    /// A reference to an object that an earlier call of the same request
    /// creates, by its creation id. On the wire it is the id prefixed by `#`.
    Ref(String),
    Array(Vec<Value>),
    Object(Vec<(String, Value)>),
}

/// The first entry under `key`.
pub open spec fn lookup<V>(entries: Seq<(Seq<char>, V)>, key: Seq<char>) -> Option<V>
    decreases entries.len(),
{
    if entries.len() == 0 {
        None
    } else if entries[0].0 == key {
        Some(entries[0].1)
    } else {
        lookup(entries.subrange(1, entries.len() as int), key)
    }
}

impl Json {
    /// The entry under `key` of an object; nothing for other nodes.
    pub open spec fn get(self, key: Seq<char>) -> Option<Json> {
        match self {
            Json::Object(e) => lookup(e, key),
            _ => None,
        }
    }
}

impl View for Value {
    type V = Json;

    open spec fn view(&self) -> Json
        decreases self,
    {
        match self {
            Value::Null => Json::Null,
            Value::Bool(b) => Json::Bool(*b),
            Value::UInt(n) => Json::Number(*n as int),
            Value::Int(n) => Json::Number(*n as int),
            Value::Str(s) => Json::Str(s@),
            Value::Ref(s) => Json::Ref(s@),
            Value::Array(a) => Json::Array(views(a@)),
            Value::Object(e) => Json::Object(entry_views(e@)),
        }
    }
}

pub open spec fn views(s: Seq<Value>) -> Seq<Json>
    decreases s,
{
    if s.len() == 0 {
        Seq::empty()
    } else {
        seq![s[0]@] + views(s.subrange(1, s.len() as int))
    }
}

pub open spec fn entry_views(s: Seq<(String, Value)>) -> Seq<(Seq<char>, Json)>
    decreases s,
{
    if s.len() == 0 {
        Seq::empty()
    } else {
        seq![(s[0].0@, s[0].1@)] + entry_views(s.subrange(1, s.len() as int))
    }
}

pub proof fn lemma_views(s: Seq<Value>)
    ensures
        views(s).len() == s.len(),
        forall|i: int| 0 <= i < s.len() ==> #[trigger] views(s)[i] == s[i]@,
    decreases s.len(),
{
    if s.len() > 0 {
        let rest = s.subrange(1, s.len() as int);
        lemma_views(rest);
        assert(views(s) == seq![s[0]@] + views(rest));
        assert forall|i: int| 0 < i < s.len() implies #[trigger] s[i] == rest[i - 1] by {}
    }
}

pub proof fn lemma_entry_views(s: Seq<(String, Value)>)
    ensures
        entry_views(s).len() == s.len(),
        forall|i: int| 0 <= i < s.len() ==> #[trigger] entry_views(s)[i] == (s[i].0@, s[i].1@),
    decreases s.len(),
{
    if s.len() > 0 {
        let rest = s.subrange(1, s.len() as int);
        lemma_entry_views(rest);
        assert(entry_views(s) == seq![(s[0].0@, s[0].1@)] + entry_views(rest));
        assert forall|i: int| 0 < i < s.len() implies #[trigger] s[i] == rest[i - 1] by {}
    }
}

/// Skipping an entry whose key differs does not change what `lookup` finds.
pub proof fn lemma_lookup_suffix<V>(entries: Seq<(Seq<char>, V)>, key: Seq<char>, i: int)
    requires
        0 <= i < entries.len(),
        entries[i].0 != key,
    ensures
        lookup(entries.subrange(i, entries.len() as int), key) == lookup(
            entries.subrange(i + 1, entries.len() as int),
            key,
        ),
{
    let s = entries.subrange(i, entries.len() as int);
    assert(s.subrange(1, s.len() as int) =~= entries.subrange(i + 1, entries.len() as int));
}

/// The position of the first entry under `key`.
pub fn find_key<V>(entries: &Vec<(String, V)>, key: &str) -> (r: Option<usize>)
    ensures
        match r {
            Some(i) => i < entries.len() && entries@[i as int].0@ == key@ && forall|j: int|
                0 <= j < i ==> #[trigger] entries@[j].0@ != key@,
            None => forall|j: int| 0 <= j < entries.len() ==> #[trigger] entries@[j].0@ != key@,
        },
{
    let mut i: usize = 0;
    while i < entries.len()
        invariant
            i <= entries.len(),
            forall|j: int| 0 <= j < i ==> #[trigger] entries@[j].0@ != key@,
        decreases entries.len() - i,
    {
        if same_text(entries[i].0.as_str(), key) {
            return Some(i);
        }
        i += 1;
    }
    None
}

/// Skipping entries whose key differs does not change what `lookup` finds.
pub proof fn lemma_lookup_skip<V>(m: Seq<(Seq<char>, V)>, key: Seq<char>, n: int)
    requires
        0 <= n <= m.len(),
        forall|j: int| 0 <= j < n ==> #[trigger] m[j].0 != key,
    ensures
        lookup(m, key) == lookup(m.subrange(n, m.len() as int), key),
    decreases n,
{
    if n > 0 {
        lemma_lookup_skip(m, key, n - 1);
        lemma_lookup_suffix(m, key, n - 1);
    } else {
        assert(m.subrange(0, m.len() as int) =~= m);
    }
}

/// What `lookup` finds on the model of a list of entries, from what `find_key` says.
pub proof fn lemma_lookup_entries(e: Seq<(String, Value)>, key: Seq<char>, r: Option<usize>)
    requires
        match r {
            Some(i) => i < e.len() && e[i as int].0@ == key && forall|j: int|
                0 <= j < i ==> #[trigger] e[j].0@ != key,
            None => forall|j: int| 0 <= j < e.len() ==> #[trigger] e[j].0@ != key,
        },
    ensures
        match r {
            Some(i) => lookup(entry_views(e), key) == Some(e[i as int].1@),
            None => lookup(entry_views(e), key) is None,
        },
{
    let m = entry_views(e);
    lemma_entry_views(e);
    let n: int = match r {
        Some(i) => i as int,
        None => e.len() as int,
    };
    assert forall|j: int| 0 <= j < n implies #[trigger] m[j].0 != key by {
        assert(m[j] == (e[j].0@, e[j].1@));
    }
    lemma_lookup_skip(m, key, n);
    if n < e.len() {
        let s = m.subrange(n, m.len() as int);
        assert(s[0] == m[n]);
    }
}

impl Value {
    /// A copy of this value, node for node.
    #[verifier::loop_isolation(false)]
    pub fn copy(&self) -> (r: Value)
        ensures
            r@ == self@,
        decreases self,
    {
        match self {
            Value::Null => Value::Null,
            Value::Bool(b) => Value::Bool(*b),
            Value::UInt(n) => Value::UInt(*n),
            Value::Int(n) => Value::Int(*n),
            Value::Str(s) => Value::Str(s.clone()),
            Value::Ref(s) => Value::Ref(s.clone()),
            Value::Array(a) => {
                let mut out: Vec<Value> = Vec::new();
                let mut i: usize = 0;
                while i < a.len()
                    invariant
                        i <= a.len(),
                        out@.len() == i,
                        forall|j: int| 0 <= j < i ==> #[trigger] out@[j]@ == a@[j]@,
                    decreases a.len() - i,
                {
                    proof {
                        assert(decreases_to!(*self => self->Array_0));
                        assert(decreases_to!(*a => a@));
                        assert(decreases_to!(a@ => a@[i as int]));
                    }
                    out.push(a[i].copy());
                    i += 1;
                }
                proof {
                    lemma_views(out@);
                    lemma_views(a@);
                    assert(views(out@) =~= views(a@));
                }
                Value::Array(out)
            },
            Value::Object(e) => {
                let mut out: Vec<(String, Value)> = Vec::new();
                let mut i: usize = 0;
                while i < e.len()
                    invariant
                        i <= e.len(),
                        out@.len() == i,
                        forall|j: int|
                            0 <= j < i ==> #[trigger] out@[j].0@ == e@[j].0@ && out@[j].1@
                                == e@[j].1@,
                    decreases e.len() - i,
                {
                    proof {
                        assert(decreases_to!(*self => self->Object_0));
                        assert(decreases_to!(*e => e@));
                        assert(decreases_to!(e@ => e@[i as int]));
                        assert(decreases_to!(e@[i as int] => e@[i as int].1));
                    }
                    let k = e[i].0.clone();
                    let v = e[i].1.copy();
                    out.push((k, v));
                    i += 1;
                }
                proof {
                    lemma_entry_views(out@);
                    lemma_entry_views(e@);
                    assert(entry_views(out@) =~= entry_views(e@));
                }
                Value::Object(out)
            },
        }
    }

    /// The entry under `key`, when this is an object that has one.
    pub fn get(&self, key: &str) -> (r: Option<&Value>)
        ensures
            match r {
                Some(x) => self@.get(key@) == Some(x@),
                None => self@.get(key@) is None,
            },
    {
        match self {
            Value::Object(e) => {
                let k = find_key(e, key);
                proof {
                    lemma_lookup_entries(e@, key@, k);
                }
                match k {
                    Some(i) => Some(&e[i].1),
                    None => None,
                }
            },
            _ => None,
        }
    }

    /// The text of a string node.
    pub fn as_str(&self) -> (r: Option<&String>)
        ensures
            match r {
                Some(s) => self@ == Json::Str(s@),
                None => !(self@ is Str),
            },
    {
        match self {
            Value::Str(s) => Some(s),
            _ => None,
        }
    }

    /// The items of an array node.
    pub fn as_array(&self) -> (r: Option<&Vec<Value>>)
        ensures
            match r {
                Some(a) => self@ == Json::Array(views(a@)),
                None => !(self@ is Array),
            },
    {
        match self {
            Value::Array(a) => Some(a),
            _ => None,
        }
    }

    /// The number of a numeric node, when it is not negative.
    pub fn as_u64(&self) -> (r: Option<u64>)
        ensures
            match r {
                Some(n) => self@ == Json::Number(n as int),
                None => !(self@ is Number && self@->Number_0 >= 0),
            },
    {
        match self {
            Value::UInt(n) => Some(*n),
            Value::Int(n) => {
                if *n >= 0 {
                    Some(*n as u64)
                } else {
                    None
                }
            },
            _ => None,
        }
    }

    /// The truth value of a boolean node.
    pub fn as_bool(&self) -> (r: Option<bool>)
        ensures
            match r {
                Some(b) => self@ == Json::Bool(b),
                None => !(self@ is Bool),
            },
    {
        match self {
            Value::Bool(b) => Some(*b),
            _ => None,
        }
    }

    /// A string node holding `s`.
    pub fn text(s: &str) -> (r: Value)
        ensures
            r@ == Json::Str(s@),
    {
        Value::Str(s.to_owned())
    }
}

/// Appends the entry `k: v` to an object's entries.
pub fn push_entry(e: &mut Vec<(String, Value)>, k: &str, v: Value)
    ensures
        entry_views(final(e)@) == entry_views(old(e)@).push((k@, v@)),
{
    let ghost before = e@;
    e.push((k.to_owned(), v));
    proof {
        lemma_entry_views(before);
        lemma_entry_views(e@);
        assert(entry_views(e@) =~= entry_views(before).push((k@, e@[before.len() as int].1@)));
    }
}

/// Appends `v` to an array's items.
pub fn push_item(a: &mut Vec<Value>, v: Value)
    ensures
        views(final(a)@) == views(old(a)@).push(v@),
{
    let ghost before = a@;
    a.push(v);
    proof {
        lemma_views(before);
        lemma_views(a@);
        assert(views(a@) =~= views(before).push(a@[before.len() as int]@));
    }
}

/// An array of strings holding the texts `l`.
pub fn strs_to_value(l: &[&str]) -> (r: Value)
    ensures
        r@ == Json::Array(l@.map_values(|s: &str| Json::Str(s@))),
{
    let mut out: Vec<Value> = Vec::new();
    let mut i: usize = 0;
    while i < l.len()
        invariant
            i <= l.len(),
            views(out@) == l@.subrange(0, i as int).map_values(|s: &str| Json::Str(s@)),
        decreases l.len() - i,
    {
        push_item(&mut out, Value::text(l[i]));
        assert(l@.subrange(0, i + 1).map_values(|s: &str| Json::Str(s@)) =~= l@.subrange(
            0,
            i as int,
        ).map_values(|s: &str| Json::Str(s@)).push(Json::Str(l@[i as int]@)));
        i += 1;
    }
    assert(l@.subrange(0, l@.len() as int) =~= l@);
    Value::Array(out)
}

/// An array of strings holding the texts `l`.
pub fn strings_to_value(l: &[String]) -> (r: Value)
    ensures
        r@ == Json::Array(l@.map_values(|s: String| Json::Str(s@))),
{
    let mut out: Vec<Value> = Vec::new();
    let mut i: usize = 0;
    while i < l.len()
        invariant
            i <= l.len(),
            views(out@) == l@.subrange(0, i as int).map_values(|s: String| Json::Str(s@)),
        decreases l.len() - i,
    {
        push_item(&mut out, Value::Str(l[i].clone()));
        assert(l@.subrange(0, i + 1).map_values(|s: String| Json::Str(s@)) =~= l@.subrange(
            0,
            i as int,
        ).map_values(|s: String| Json::Str(s@)).push(Json::Str(l@[i as int]@)));
        i += 1;
    }
    assert(l@.subrange(0, l@.len() as int) =~= l@);
    Value::Array(out)
}

} // verus!
