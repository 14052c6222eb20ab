//! What can go wrong talking to Sleeper.
//!
//! The one non-obvious case is not-found. Sleeper answers an unknown league
//! with HTTP 404 and a `null` body, but an unknown username with HTTP **200**
//! and a `null` body, and an unknown user's league list with 200 and `[]`. A
//! success status therefore does not mean there is a payload, so both shapes
//! become the same [`Error::NotFound`] — callers never have to know which
//! endpoint chose which convention.
//!
//! The transport and the json decoder are the app's; what they report is
//! carried here as the plain facts the rules below read.

use vstd::prelude::*;

use crate::text::{decimal, decimal_string, join2};

verus! {

/// A request that never produced a response, as the transport reported it.
#[derive(Debug, Clone)]
pub struct HttpFailure {
    /// What the transport said went wrong.
    pub message: String,
    /// Whether the request ran out of time.
    pub timed_out: bool,
    /// Whether the connection itself could not be made.
    pub connect_failed: bool,
}

/// Anything that can fail between asking Sleeper a question and getting a
/// typed answer back.
#[derive(Debug)]
pub enum Error {
    /// The request never produced a response: DNS, TLS, connect, timeout.
    Http(HttpFailure),
    /// A response arrived but did not match the payload types. Carries the
    /// endpoint because the payloads are large and the line and column in the
    /// decoder's message are useless without knowing which one.
    Decode {
        /// The request path, e.g. `/v1/league/<id>/matchups/2`.
        endpoint: String,
        /// What the decoder said.
        source: String,
    },
    /// The thing asked for does not exist. Both a 404 and a 200 with a `null`
    /// body land here.
    NotFound {
        /// What was asked for, phrased for a message: `user "someone"`.
        what: String,
    },
    /// Any other non-success status. 429 and 5xx show up here, which is the
    /// signal to back off rather than retry immediately.
    Status {
        /// The HTTP status code.
        code: u16,
        /// The request path that produced it.
        endpoint: String,
    },
}

/// Whether an error is worth trying again shortly: a timeout, a refused
/// connection, a rate limit or a server error. A 404 or a decode failure
/// will fail the same way forever.
pub open spec fn transient(error: Error) -> bool {
    match error {
        Error::Http(failure) => failure.timed_out || failure.connect_failed,
        Error::Status { code, .. } => code == 429 || code >= 500,
        Error::Decode { .. } => false,
        Error::NotFound { .. } => false,
    }
}

/// The sentence an error reads as.
pub open spec fn error_text(error: Error) -> Seq<char> {
    match error {
        Error::Http(failure) => "sleeper request failed: "@ + failure.message@,
        Error::Decode { endpoint, source } => "could not decode "@ + endpoint@ + ": "@ + source@,
        Error::NotFound { what } => "sleeper has no "@ + what@,
        Error::Status { code, endpoint } => "sleeper answered "@ + decimal(code as nat) + " for "@
            + endpoint@,
    }
}

impl Error {
    /// Whether this is worth trying again shortly. Rate limits and server
    /// errors are; a 404 or a decode failure will fail the same way forever.
    pub fn is_transient(&self) -> (r: bool)
        ensures
            r == transient(*self),
    {
        match self {
            Error::Http(failure) => failure.timed_out || failure.connect_failed,
            Error::Status { code, .. } => *code == 429 || *code >= 500,
            Error::Decode { .. } => false,
            Error::NotFound { .. } => false,
        }
    }

    /// The error as a sentence: `"sleeper has no user \"nobody\""`.
    pub fn to_string(&self) -> (r: String)
        ensures
            r@ == error_text(*self),
    {
        match self {
            Error::Http(failure) => join2("sleeper request failed: ", failure.message.as_str()),
            Error::Decode { endpoint, source } => {
                let mut text = join2("could not decode ", endpoint.as_str());
                text.append(": ");
                text.append(source.as_str());
                text
            },
            Error::NotFound { what } => join2("sleeper has no ", what.as_str()),
            Error::Status { code, endpoint } => {
                let mut text = "sleeper answered ".to_owned();
                let number = decimal_string(*code as u64);
                text.append(number.as_str());
                text.append(" for ");
                text.append(endpoint.as_str());
                text
            },
        }
    }
}

} // verus!
