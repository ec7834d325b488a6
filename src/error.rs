//! What can go wrong in talking to a server.
use vstd::prelude::*;

verus! {

/// Why an operation failed.
#[derive(Debug, Clone, PartialEq)]
pub enum JmapError {
    /// The request could not be sent, or its reply not received.
    Http(String),
    /// The server answered with an HTTP status that is neither a success nor 401.
    Status(u16),
    /// A reply that does not have the shape the operation expects.
    Api(String),
    /// The server refused the credentials (HTTP 401).
    Auth,
    /// The server does not offer mail.
    NoMailCapability,
    /// The session names no primary account for mail.
    NoAccount,
    /// The thread asked for does not exist.
    ThreadNotFound,
    /// The server reported that a call failed: its kind of error, and a description if it gave one.
    MethodError { type_: String, description: Option<String> },
    /// A reply body that is not JSON, or that does not encode what was expected.
    Json(String),
}

} // verus!
