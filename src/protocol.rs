//! Method calls, and the request and response envelopes that carry them.
use vstd::prelude::*;

use crate::decode::{opt_view, opt_text, texts_view, get_opt_text};
use crate::value::{Json, Value, views, lemma_views, entry_views, lemma_entry_views};

verus! {

/// The model of one method call: its name, its arguments and its call id.
pub struct Call {
    pub name: Seq<char>,
    pub args: Json,
    pub id: Seq<char>,
}

/// One method call, or one method response: `[name, arguments, call id]` on
/// the wire. A response named `error` reports a failed call.
#[derive(Debug, PartialEq)]
pub struct Invocation {
    pub name: String,
    pub args: Value,
    pub call_id: String,
}

impl View for Invocation {
    type V = Call;

    open spec fn view(&self) -> Call {
        Call { name: self.name@, args: self.args@, id: self.call_id@ }
    }
}

/// The wire form of one call.
pub open spec fn encode_call(c: Call) -> Json {
    Json::Array(seq![Json::Str(c.name), c.args, Json::Str(c.id)])
}

/// Whether a node has the shape of a call: an array of a string, any node and a string.
pub open spec fn is_call(j: Json) -> bool {
    &&& j is Array
    &&& j->Array_0.len() == 3
    &&& j->Array_0[0] is Str
    &&& j->Array_0[2] is Str
}

/// The call that a node of the right shape encodes.
pub open spec fn decode_call(j: Json) -> Call
    recommends
        is_call(j),
{
    Call { name: j->Array_0[0]->Str_0, args: j->Array_0[1], id: j->Array_0[2]->Str_0 }
}

/// The wire form of a batch of calls: an array of them, in order.
pub open spec fn encode_batch(calls: Seq<Call>) -> Json {
    Json::Array(calls.map_values(|c: Call| encode_call(c)))
}

/// The batch that a node encodes, when it is an array of calls.
pub open spec fn decode_batch(j: Json) -> Option<Seq<Call>> {
    if j is Array && forall|i: int| 0 <= i < j->Array_0.len() ==> is_call(#[trigger] j->Array_0[i]) {
        Some(j->Array_0.map_values(|x: Json| decode_call(x)))
    } else {
        None
    }
}

/// The models of a list of calls.
pub open spec fn calls_view(calls: Seq<Invocation>) -> Seq<Call> {
    calls.map_values(|c: Invocation| c@)
}

/// A batch read back from its own wire form is the batch that was written:
/// as many calls, in the same order, each with its name, arguments and call id.
pub proof fn lemma_batch_round_trip(calls: Seq<Call>)
    ensures
        decode_batch(encode_batch(calls)) == Some(calls),
{
    let items = calls.map_values(|c: Call| encode_call(c));
    assert forall|i: int| 0 <= i < items.len() implies is_call(#[trigger] items[i]) by {}
    let back = items.map_values(|x: Json| decode_call(x));
    assert forall|i: int| 0 <= i < calls.len() implies #[trigger] back[i] == calls[i] by {
        assert(items[i] == encode_call(calls[i]));
    }
    assert(back =~= calls);
}

impl Invocation {
    /// The wire form of this call.
    pub fn to_value(self) -> (r: Value)
        ensures
            r@ == encode_call(self@),
    {
        let mut a: Vec<Value> = Vec::new();
        a.push(Value::Str(self.name));
        a.push(self.args);
        a.push(Value::Str(self.call_id));
        proof {
            lemma_views(a@);
            assert(views(a@) =~= seq![a@[0]@, a@[1]@, a@[2]@]);
        }
        Value::Array(a)
    }

    /// The call that `v` encodes, when it has the shape of one.
    pub fn from_value(v: &Value) -> (r: Option<Invocation>)
        ensures
            r is Some <==> is_call(v@),
            r matches Some(c) ==> c@ == decode_call(v@),
    {
        let a = match v.as_array() {
            Some(a) => a,
            None => return None,
        };
        proof {
            lemma_views(a@);
        }
        if a.len() != 3 {
            return None;
        }
        let name = match a[0].as_str() {
            Some(s) => s.clone(),
            None => return None,
        };
        let call_id = match a[2].as_str() {
            Some(s) => s.clone(),
            None => return None,
        };
        Some(Invocation { name, args: a[1].copy(), call_id })
    }
}

/// The wire form of a batch of calls.
pub fn encode_calls(calls: Vec<Invocation>) -> (r: Value)
    ensures
        r@ == encode_batch(calls_view(calls@)),
{
    let ghost models = calls_view(calls@);
    let ghost original = calls@;
    let mut calls = calls;
    let mut out: Vec<Value> = Vec::new();
    while calls.len() > 0
        invariant
            out@.len() + calls@.len() == original.len(),
            models == calls_view(original),
            calls@ == original.subrange(out@.len() as int, original.len() as int),
            forall|j: int| 0 <= j < out@.len() ==> #[trigger] out@[j]@ == encode_call(original[j]@),
        decreases calls@.len(),
    {
        let c = calls.remove(0);
        out.push(c.to_value());
    }
    proof {
        lemma_views(out@);
        assert(views(out@) =~= models.map_values(|c: Call| encode_call(c)));
    }
    Value::Array(out)
}

/// The batch that `v` encodes, when it is an array of calls.
pub fn decode_calls(v: &Value) -> (r: Option<Vec<Invocation>>)
    ensures
        match r {
            Some(calls) => decode_batch(v@) == Some(calls_view(calls@)),
            None => decode_batch(v@) is None,
        },
{
    let a = match v.as_array() {
        Some(a) => a,
        None => return None,
    };
    proof {
        lemma_views(a@);
    }
    let ghost items = views(a@);
    let mut out: Vec<Invocation> = Vec::new();
    let mut i: usize = 0;
    while i < a.len()
        invariant
            v@ == Json::Array(items),
            items == views(a@),
            items.len() == a@.len(),
            forall|j: int| 0 <= j < a@.len() ==> #[trigger] items[j] == a@[j]@,
            i <= a.len(),
            out@.len() == i,
            forall|j: int| 0 <= j < i ==> is_call(#[trigger] items[j]),
            forall|j: int| 0 <= j < i ==> #[trigger] out@[j]@ == decode_call(items[j]),
        decreases a.len() - i,
    {
        match Invocation::from_value(&a[i]) {
            Some(c) => out.push(c),
            None => {
                assert(!is_call(items[i as int]));
                return None;
            },
        }
        i += 1;
    }
    proof {
        assert(calls_view(out@) =~= items.map_values(|x: Json| decode_call(x)));
    }
    Some(out)
}

/// A request: the capabilities it uses, and its calls in order.
#[derive(Debug, PartialEq)]
pub struct JmapRequest {
    pub using: Vec<String>,
    pub method_calls: Vec<Invocation>,
}

/// A response: one entry for each call, in the order of the calls, and the
/// session state token when the server sends one.
#[derive(Debug, PartialEq)]
pub struct JmapResponse {
    pub method_responses: Vec<Invocation>,
    pub session_state: Option<String>,
}

/// The model of a response.
pub struct ResponseView {
    pub calls: Seq<Call>,
    pub session_state: Option<Seq<char>>,
}

impl View for JmapResponse {
    type V = ResponseView;

    open spec fn view(&self) -> ResponseView {
        ResponseView {
            calls: calls_view(self.method_responses@),
            session_state: opt_view(self.session_state),
        }
    }
}

/// A list of texts as an array of strings.
pub open spec fn texts_json(l: Seq<Seq<char>>) -> Json {
    Json::Array(l.map_values(|s: Seq<char>| Json::Str(s)))
}

/// The wire form of a request.
pub open spec fn encode_request(using: Seq<Seq<char>>, calls: Seq<Call>) -> Json {
    Json::Object(seq![("using"@, texts_json(using)), ("methodCalls"@, encode_batch(calls))])
}

/// The response that a node encodes, when it has the shape of one.
pub open spec fn decode_response(j: Json) -> Option<ResponseView> {
    match j.get("methodResponses"@) {
        Some(b) => match decode_batch(b) {
            Some(calls) => if j is Object && opt_text(j.get("sessionState"@)) is Some {
                Some(ResponseView { calls, session_state: opt_text(j.get("sessionState"@))->0 })
            } else {
                None
            },
            None => None,
        },
        None => None,
    }
}

/// An array of strings holding `l`.
pub fn texts_to_value(l: &Vec<String>) -> (r: Value)
    ensures
        r@ == texts_json(texts_view(l@)),
{
    let mut out: Vec<Value> = Vec::new();
    let mut i: usize = 0;
    while i < l.len()
        invariant
            i <= l.len(),
            out@.len() == i,
            forall|j: int| 0 <= j < i ==> #[trigger] out@[j]@ == Json::Str(l@[j]@),
        decreases l.len() - i,
    {
        out.push(Value::Str(l[i].clone()));
        i += 1;
    }
    proof {
        lemma_views(out@);
        assert(views(out@) =~= texts_view(l@).map_values(|s: Seq<char>| Json::Str(s)));
    }
    Value::Array(out)
}

impl JmapRequest {
    /// The wire form of this request.
    pub fn to_value(self) -> (r: Value)
        ensures
            r@ == encode_request(texts_view(self.using@), calls_view(self.method_calls@)),
    {
        let using = texts_to_value(&self.using);
        let calls = encode_calls(self.method_calls);
        let mut e: Vec<(String, Value)> = Vec::new();
        e.push(("using".to_owned(), using));
        e.push(("methodCalls".to_owned(), calls));
        proof {
            lemma_entry_views(e@);
            assert(entry_views(e@) =~= seq![(e@[0].0@, e@[0].1@), (e@[1].0@, e@[1].1@)]);
        }
        Value::Object(e)
    }
}

impl JmapResponse {
    /// The response that `v` encodes, when it has the shape of one.
    pub fn from_value(v: &Value) -> (r: Option<JmapResponse>)
        ensures
            match r {
                Some(resp) => decode_response(v@) == Some(resp@),
                None => decode_response(v@) is None,
            },
    {
        let b = match v.get("methodResponses") {
            Some(b) => b,
            None => return None,
        };
        let calls = match decode_calls(b) {
            Some(c) => c,
            None => return None,
        };
        if !matches!(v, Value::Object(_)) {
            return None;
        }
        let state = match get_opt_text(v, "sessionState") {
            Some(s) => s,
            None => return None,
        };
        Some(JmapResponse { method_responses: calls, session_state: state })
    }
}

} // verus!
