//! The gateway's error taxonomy: three kinds of failure, each mapped to one
//! HTTP status code at the edge.

use vstd::prelude::*;

verus! {

/// A typed failure surfaced by any component of the gateway.
///
/// The three kinds form the whole taxonomy: a missing or rejected credential,
/// malformed client input, and everything upstream or internal. Each carries
/// an operator-visible message; the edge layer alone turns the kind into an
/// HTTP status and a JSON envelope.
#[derive(Debug)]
pub enum ApiError {
    /// The caller presented no credential, a malformed one, or one the
    /// identity provider rejected.
    Unauthorized(String),
    /// The caller's input was structurally malformed.
    BadRequest(String),
    /// An upstream, transport, or parse failure, or an unimplemented feature.
    Internal(String),
}

impl ApiError {
    /// The HTTP status code this error maps to at the edge.
    pub fn status_code(&self) -> (code: u16)
        ensures
            code == self.spec_status_code(),
    {
        match self {
            ApiError::Unauthorized(_) => 401,
            ApiError::BadRequest(_) => 400,
            ApiError::Internal(_) => 500,
        }
    }

    /// The status code of each kind: 401, 400, or 500.
    pub open spec fn spec_status_code(&self) -> u16 {
        match self {
            ApiError::Unauthorized(_) => 401,
            ApiError::BadRequest(_) => 400,
            ApiError::Internal(_) => 500,
        }
    }

    /// The operator-visible message carried by the error.
    pub fn message(&self) -> (m: &String)
        ensures
            m@ == self.spec_message(),
    {
        match self {
            ApiError::Unauthorized(m) => m,
            ApiError::BadRequest(m) => m,
            ApiError::Internal(m) => m,
        }
    }

    /// The message of each kind, as a sequence of characters.
    pub open spec fn spec_message(&self) -> Seq<char> {
        match self {
            ApiError::Unauthorized(m) => m@,
            ApiError::BadRequest(m) => m@,
            ApiError::Internal(m) => m@,
        }
    }
}

} // verus!
