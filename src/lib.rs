//! A client for the JMAP mail protocol that performs no I/O itself: it builds
//! the requests to send, and decides what the replies mean.
//!
//! - `value`, `protocol`, `decode`: the argument tree of method calls, the
//!   request and response envelopes, and reading typed fields out of objects.
//! - `auth`, `http`, `session`, `client`: Basic credentials, the HTTP
//!   exchanges the caller performs, the session, and connecting.
//! - `ops`, `send`, `mail`: one request builder and one reply reader per
//!   operation, and the mail records they carry.
//! - `sse`, `push`, `store`: the push channel's event parser, its reconnect
//!   policy, and how a state change updates what the application knows.
//! - `router`, `tree`, `display`, `reply`, `text`: naming mailboxes in URLs,
//!   the mailbox tree in display order, how things are shown, starting a
//!   reply, and text operations.
pub mod auth;
pub mod client;
pub mod decode;
pub mod display;
pub mod error;
pub mod http;
pub mod mail;
pub mod ops;
pub mod protocol;
pub mod push;
pub mod reply;
pub mod router;
pub mod send;
pub mod session;
pub mod sse;
pub mod store;
pub mod text;
pub mod tree;
pub mod value;
