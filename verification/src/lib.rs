//! Protocol codec for a hosted publish/subscribe messaging service.
//!
//! The crate covers the pure halves of a publish or subscribe exchange:
//! building the request target (path and query) for either operation, and
//! decoding the service's JSON response into typed values — a resumable
//! position cursor and, for subscribe, the ordered batch of messages.
//! Performing the HTTP exchange itself is the caller's business; this crate
//! only consumes and produces plain byte strings and trees of JSON values.

use vstd::prelude::*;

pub mod channels;
pub mod encode;
pub mod json;
pub mod cursor;
pub mod decode;
pub mod percent;

verus! {

/// The kinds of failure a publish or subscribe call can surface.
///
/// No retry or recovery happens at this layer: every failure is handed to
/// the caller as one of these kinds.
#[derive(Clone, Copy, Debug, PartialEq, Eq, Structural)]
pub enum ErrorKind {
    /// The outbound payload could not be serialized to JSON.
    EncodingFailure,
    /// The HTTP exchange itself failed (connection error, non-success status).
    TransportFailure,
    /// The response body was not the documented shape: a required field was
    /// absent or mistyped, or the body was not JSON at all.
    MalformedResponse,
}

} // verus!
