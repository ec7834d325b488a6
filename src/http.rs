//! The HTTP exchanges that the client asks its caller to perform.
use vstd::prelude::*;

use crate::value::Value;

verus! {

/// An HTTP method.
#[derive(Debug, Clone, Copy, PartialEq, Eq, Structural)]
pub enum HttpMethod {
    Get,
    Post,
}

/// A request to send: method, URL, headers in order, and a JSON body if any.
#[derive(Debug, PartialEq)]
pub struct HttpRequest {
    pub method: HttpMethod,
    pub url: String,
    pub headers: Vec<(String, String)>,
    pub body: Option<Value>,
}

/// What came back: the status, and the body read as JSON (nothing when the
/// body is not JSON).
#[derive(Debug, PartialEq)]
pub struct HttpReply {
    pub status: u16,
    pub body: Option<Value>,
}

/// Whether `status` is a success (2xx).
pub open spec fn is_success(status: u16) -> bool {
    200 <= status < 300
}

/// The models of a list of headers.
pub open spec fn headers_view(h: Seq<(String, String)>) -> Seq<(Seq<char>, Seq<char>)> {
    h.map_values(|p: (String, String)| (p.0@, p.1@))
}

pub fn status_is_success(status: u16) -> (r: bool)
    ensures
        r == is_success(status),
{
    200 <= status && status < 300
}

/// A header list of one header.
pub fn one_header(name: &str, value: String) -> (r: Vec<(String, String)>)
    ensures
        headers_view(r@) == seq![(name@, value@)],
{
    let mut h: Vec<(String, String)> = Vec::new();
    h.push((name.to_owned(), value));
    assert(headers_view(h@) =~= seq![(name@, value@)]);
    h
}

/// A header list of two headers, in order.
pub fn two_headers(name1: &str, value1: String, name2: &str, value2: &str) -> (r: Vec<
    (String, String),
>)
    ensures
        headers_view(r@) == seq![(name1@, value1@), (name2@, value2@)],
{
    let mut h: Vec<(String, String)> = Vec::new();
    h.push((name1.to_owned(), value1));
    h.push((name2.to_owned(), value2.to_owned()));
    assert(headers_view(h@) =~= seq![(name1@, value1@), (name2@, value2@)]);
    h
}

} // verus!
