//! PKI building blocks that upgrade a signature beyond the basic profile.
//!
//! * [`der`]: DER (tag, length, value) encoding and decoding.
//! * [`ocsp`]: OCSP requests and responses (RFC 6960).
//! * [`tsa`]: timestamp requests and tokens (RFC 3161).

pub mod der;
pub mod ocsp;
pub mod tsa;

use vstd::prelude::*;

verus! {

/// What came of sending a request over HTTP.
#[derive(Debug, Clone)]
pub enum HttpReply {
    /// The request could not be sent: the cause.
    SendFailed(String),
    /// The body of the answer could not be read: the cause.
    ReadFailed(String),
    /// The server answered: the status line's code and reason, whether the status is one
    /// of success, and the body.
    Answer { status: String, success: bool, body: Vec<u8> },
}

} // verus!
