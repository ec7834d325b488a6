//! Reading typed fields out of objects of the argument tree.
//!
//! A field that may be left out reads as its default when it is absent; an
//! optional field also reads as nothing when it is null. A field of the wrong
//! kind makes the whole record unreadable.
use vstd::prelude::*;

use crate::value::{Json, Value, views, lemma_views, entry_views, lemma_entry_views};

verus! {

/// The model of an optional text.
pub open spec fn opt_view(o: Option<String>) -> Option<Seq<char>> {
    match o {
        Some(s) => Some(s@),
        None => None,
    }
}

/// The models of a list of texts.
pub open spec fn texts_view(l: Seq<String>) -> Seq<Seq<char>> {
    l.map_values(|s: String| s@)
}

/// The models of a list of text entries.
pub open spec fn text_pairs_view(l: Seq<(String, String)>) -> Seq<(Seq<char>, Seq<char>)> {
    l.map_values(|p: (String, String)| (p.0@, p.1@))
}

/// The models of a list of flag entries.
pub open spec fn flag_pairs_view(l: Seq<(String, bool)>) -> Seq<(Seq<char>, bool)> {
    l.map_values(|p: (String, bool)| (p.0@, p.1))
}

/// A text that must be there.
pub open spec fn req_text(f: Option<Json>) -> Option<Seq<char>> {
    match f {
        Some(Json::Str(s)) => Some(s),
        _ => None,
    }
}

/// A text that may be absent or null.
pub open spec fn opt_text(f: Option<Json>) -> Option<Option<Seq<char>>> {
    match f {
        None => Some(None),
        Some(Json::Null) => Some(None),
        Some(Json::Str(s)) => Some(Some(s)),
        _ => None,
    }
}

/// A truth value that reads as false when absent.
pub open spec fn flag(f: Option<Json>) -> Option<bool> {
    match f {
        None => Some(false),
        Some(Json::Bool(b)) => Some(b),
        _ => None,
    }
}

/// A truth value that must be there.
pub open spec fn req_flag(f: Option<Json>) -> Option<bool> {
    match f {
        Some(Json::Bool(b)) => Some(b),
        _ => None,
    }
}

/// A truth value that may be absent or null.
pub open spec fn opt_flag(f: Option<Json>) -> Option<Option<bool>> {
    match f {
        None => Some(None),
        Some(Json::Null) => Some(None),
        Some(Json::Bool(b)) => Some(Some(b)),
        _ => None,
    }
}

/// An unsigned 64-bit count that reads as zero when absent.
pub open spec fn count(f: Option<Json>) -> Option<u64> {
    match f {
        None => Some(0),
        Some(Json::Number(n)) => if 0 <= n <= u64::MAX {
            Some(n as u64)
        } else {
            None
        },
        _ => None,
    }
}

/// An unsigned 32-bit number that reads as zero when absent.
pub open spec fn small_count(f: Option<Json>) -> Option<u32> {
    match f {
        None => Some(0),
        Some(Json::Number(n)) => if 0 <= n <= u32::MAX {
            Some(n as u32)
        } else {
            None
        },
        _ => None,
    }
}

/// An unsigned 64-bit number that may be absent or null.
pub open spec fn opt_count(f: Option<Json>) -> Option<Option<u64>> {
    match f {
        None => Some(None),
        Some(Json::Null) => Some(None),
        Some(Json::Number(n)) => if 0 <= n <= u64::MAX {
            Some(Some(n as u64))
        } else {
            None
        },
        _ => None,
    }
}

/// A list whose every item reads with `item`.
pub open spec fn list_of<M>(f: Option<Json>, item: spec_fn(Json) -> Option<M>) -> Option<Seq<M>> {
    match f {
        Some(Json::Array(a)) => if forall|i: int| 0 <= i < a.len() ==> item(#[trigger] a[i]) is Some {
            Some(a.map_values(|x: Json| item(x)->0))
        } else {
            None
        },
        _ => None,
    }
}

/// A list that may be absent or null.
pub open spec fn opt_list_of<M>(f: Option<Json>, item: spec_fn(Json) -> Option<M>) -> Option<
    Option<Seq<M>>,
> {
    match f {
        None => Some(None),
        Some(Json::Null) => Some(None),
        _ => match list_of(f, item) {
            Some(l) => Some(Some(l)),
            None => None,
        },
    }
}

/// An object whose every entry's value reads with `item`, entry for entry.
pub open spec fn map_of<M>(f: Option<Json>, item: spec_fn(Json) -> Option<M>) -> Option<
    Seq<(Seq<char>, M)>,
> {
    match f {
        Some(Json::Object(e)) => if forall|i: int| 0 <= i < e.len() ==> item(#[trigger] e[i].1) is Some {
            Some(e.map_values(|p: (Seq<char>, Json)| (p.0, item(p.1)->0)))
        } else {
            None
        },
        _ => None,
    }
}

/// An object that may be absent or null.
pub open spec fn opt_map_of<M>(f: Option<Json>, item: spec_fn(Json) -> Option<M>) -> Option<
    Option<Seq<(Seq<char>, M)>>,
> {
    match f {
        None => Some(None),
        Some(Json::Null) => Some(None),
        _ => match map_of(f, item) {
            Some(l) => Some(Some(l)),
            None => None,
        },
    }
}

/// The keys of an object that reads as empty when absent; its values are not read.
pub open spec fn key_set(f: Option<Json>) -> Option<Seq<Seq<char>>> {
    match f {
        None => Some(Seq::empty()),
        Some(Json::Object(e)) => Some(e.map_values(|p: (Seq<char>, Json)| p.0)),
        _ => None,
    }
}

/// The keys of an object that must be there.
pub open spec fn req_key_set(f: Option<Json>) -> Option<Seq<Seq<char>>> {
    match f {
        Some(Json::Object(e)) => Some(e.map_values(|p: (Seq<char>, Json)| p.0)),
        _ => None,
    }
}

/// A node read as a text.
pub open spec fn text_item(j: Json) -> Option<Seq<char>> {
    match j {
        Json::Str(s) => Some(s),
        _ => None,
    }
}

/// A node read as a truth value.
pub open spec fn flag_item(j: Json) -> Option<bool> {
    match j {
        Json::Bool(b) => Some(b),
        _ => None,
    }
}

pub fn get_req_text(v: &Value, key: &str) -> (r: Option<String>)
    ensures
        opt_view(r) == req_text(v@.get(key@)),
{
    match v.get(key) {
        Some(x) => match x.as_str() {
            Some(s) => Some(s.clone()),
            None => None,
        },
        None => None,
    }
}

pub fn get_opt_text(v: &Value, key: &str) -> (r: Option<Option<String>>)
    ensures
        match r {
            Some(o) => opt_text(v@.get(key@)) == Some(opt_view(o)),
            None => opt_text(v@.get(key@)) is None,
        },
{
    match v.get(key) {
        None => Some(None),
        Some(Value::Null) => Some(None),
        Some(Value::Str(s)) => Some(Some(s.clone())),
        Some(_) => None,
    }
}

pub fn get_flag(v: &Value, key: &str) -> (r: Option<bool>)
    ensures
        r == flag(v@.get(key@)),
{
    match v.get(key) {
        None => Some(false),
        Some(x) => x.as_bool(),
    }
}

pub fn get_req_flag(v: &Value, key: &str) -> (r: Option<bool>)
    ensures
        r == req_flag(v@.get(key@)),
{
    match v.get(key) {
        None => None,
        Some(x) => x.as_bool(),
    }
}

pub fn get_opt_flag(v: &Value, key: &str) -> (r: Option<Option<bool>>)
    ensures
        r == opt_flag(v@.get(key@)),
{
    match v.get(key) {
        None => Some(None),
        Some(Value::Null) => Some(None),
        Some(x) => match x.as_bool() {
            Some(b) => Some(Some(b)),
            None => None,
        },
    }
}

pub fn get_count(v: &Value, key: &str) -> (r: Option<u64>)
    ensures
        r == count(v@.get(key@)),
{
    match v.get(key) {
        None => Some(0),
        Some(x) => x.as_u64(),
    }
}

pub fn get_small_count(v: &Value, key: &str) -> (r: Option<u32>)
    ensures
        r == small_count(v@.get(key@)),
{
    match v.get(key) {
        None => Some(0),
        Some(x) => match x.as_u64() {
            Some(n) => if n <= u32::MAX as u64 {
                Some(n as u32)
            } else {
                None
            },
            None => None,
        },
    }
}

pub fn get_opt_count(v: &Value, key: &str) -> (r: Option<Option<u64>>)
    ensures
        r == opt_count(v@.get(key@)),
{
    match v.get(key) {
        None => Some(None),
        Some(Value::Null) => Some(None),
        Some(x) => match x.as_u64() {
            Some(n) => Some(Some(n)),
            None => None,
        },
    }
}

/// A list of texts that must be there.
pub fn get_text_list(v: &Value, key: &str) -> (r: Option<Vec<String>>)
    ensures
        match r {
            Some(l) => list_of(v@.get(key@), |j: Json| text_item(j)) == Some(texts_view(l@)),
            None => list_of(v@.get(key@), |j: Json| text_item(j)) is None,
        },
{
    let a = match v.get(key) {
        Some(x) => match x.as_array() {
            Some(a) => a,
            None => return None,
        },
        None => return None,
    };
    proof {
        lemma_views(a@);
    }
    let ghost items = views(a@);
    let mut out: Vec<String> = Vec::new();
    let mut i: usize = 0;
    while i < a.len()
        invariant
            v@.get(key@) == Some(Json::Array(items)),
            items.len() == a@.len(),
            forall|j: int| 0 <= j < a@.len() ==> #[trigger] items[j] == a@[j]@,
            i <= a.len(),
            out@.len() == i,
            forall|j: int| 0 <= j < i ==> (#[trigger] text_item(items[j])) is Some,
            forall|j: int| 0 <= j < i ==> Some(#[trigger] out@[j]@) == text_item(items[j]),
        decreases a.len() - i,
    {
        match a[i].as_str() {
            Some(s) => out.push(s.clone()),
            None => {
                assert(text_item(items[i as int]) is None);
                return None;
            },
        }
        i += 1;
    }
    proof {
        assert(texts_view(out@) =~= items.map_values(|x: Json| text_item(x)->0));
    }
    Some(out)
}

/// The keys of an object that reads as empty when absent.
pub fn get_key_set(v: &Value, key: &str) -> (r: Option<Vec<String>>)
    ensures
        match r {
            Some(l) => key_set(v@.get(key@)) == Some(texts_view(l@)),
            None => key_set(v@.get(key@)) is None,
        },
{
    let e = match v.get(key) {
        None => return Some(Vec::new()),
        Some(Value::Object(e)) => e,
        Some(_) => return None,
    };
    proof {
        lemma_entry_views(e@);
    }
    let mut out: Vec<String> = Vec::new();
    let mut i: usize = 0;
    while i < e.len()
        invariant
            i <= e.len(),
            out@.len() == i,
            forall|j: int| 0 <= j < i ==> #[trigger] out@[j]@ == e@[j].0@,
        decreases e.len() - i,
    {
        out.push(e[i].0.clone());
        i += 1;
    }
    proof {
        assert(texts_view(out@) =~= entry_views(e@).map_values(|p: (Seq<char>, Json)| p.0));
    }
    Some(out)
}

/// The keys of an object that must be there.
pub fn get_req_key_set(v: &Value, key: &str) -> (r: Option<Vec<String>>)
    ensures
        match r {
            Some(l) => req_key_set(v@.get(key@)) == Some(texts_view(l@)),
            None => req_key_set(v@.get(key@)) is None,
        },
{
    match v.get(key) {
        Some(Value::Object(_)) => get_key_set(v, key),
        _ => None,
    }
}

/// An object of texts that must be there.
pub fn get_text_map(v: &Value, key: &str) -> (r: Option<Vec<(String, String)>>)
    ensures
        match r {
            Some(l) => map_of(v@.get(key@), |j: Json| text_item(j)) == Some(text_pairs_view(l@)),
            None => map_of(v@.get(key@), |j: Json| text_item(j)) is None,
        },
{
    let e = match v.get(key) {
        Some(Value::Object(e)) => e,
        _ => return None,
    };
    proof {
        lemma_entry_views(e@);
    }
    let ghost m = entry_views(e@);
    let mut out: Vec<(String, String)> = Vec::new();
    let mut i: usize = 0;
    while i < e.len()
        invariant
            v@.get(key@) == Some(Json::Object(m)),
            m.len() == e@.len(),
            forall|j: int| 0 <= j < e@.len() ==> #[trigger] m[j] == (e@[j].0@, e@[j].1@),
            i <= e.len(),
            out@.len() == i,
            forall|j: int| 0 <= j < i ==> (#[trigger] text_item(m[j].1)) is Some,
            forall|j: int|
                0 <= j < i ==> #[trigger] out@[j].0@ == m[j].0 && Some(out@[j].1@) == text_item(
                    m[j].1,
                ),
        decreases e.len() - i,
    {
        match e[i].1.as_str() {
            Some(s) => out.push((e[i].0.clone(), s.clone())),
            None => {
                assert(text_item(m[i as int].1) is None);
                return None;
            },
        }
        i += 1;
    }
    proof {
        assert(text_pairs_view(out@) =~= m.map_values(
            |p: (Seq<char>, Json)| (p.0, text_item(p.1)->0),
        ));
    }
    Some(out)
}

/// An object of truth values that may be absent or null.
pub fn get_opt_flag_map(v: &Value, key: &str) -> (r: Option<Option<Vec<(String, bool)>>>)
    ensures
        match r {
            Some(Some(l)) => opt_map_of(v@.get(key@), |j: Json| flag_item(j)) == Some(
                Some(flag_pairs_view(l@)),
            ),
            Some(None) => opt_map_of(v@.get(key@), |j: Json| flag_item(j)) == Some(
                None::<Seq<(Seq<char>, bool)>>,
            ),
            None => opt_map_of(v@.get(key@), |j: Json| flag_item(j)) is None,
        },
{
    let e = match v.get(key) {
        None => return Some(None),
        Some(Value::Null) => return Some(None),
        Some(Value::Object(e)) => e,
        Some(_) => return None,
    };
    proof {
        lemma_entry_views(e@);
    }
    let ghost m = entry_views(e@);
    let mut out: Vec<(String, bool)> = Vec::new();
    let mut i: usize = 0;
    while i < e.len()
        invariant
            v@.get(key@) == Some(Json::Object(m)),
            m.len() == e@.len(),
            forall|j: int| 0 <= j < e@.len() ==> #[trigger] m[j] == (e@[j].0@, e@[j].1@),
            i <= e.len(),
            out@.len() == i,
            forall|j: int| 0 <= j < i ==> (#[trigger] flag_item(m[j].1)) is Some,
            forall|j: int|
                0 <= j < i ==> #[trigger] out@[j].0@ == m[j].0 && Some(out@[j].1) == flag_item(
                    m[j].1,
                ),
        decreases e.len() - i,
    {
        assert(m[i as int] == (e@[i as int].0@, e@[i as int].1@));
        match e[i].1.as_bool() {
            Some(b) => out.push((e[i].0.clone(), b)),
            None => {
                assert(flag_item(m[i as int].1) is None);
                return None;
            },
        }
        i += 1;
    }
    proof {
        assert(flag_pairs_view(out@) =~= m.map_values(
            |p: (Seq<char>, Json)| (p.0, flag_item(p.1)->0),
        ));
    }
    Some(Some(out))
}

} // verus!
