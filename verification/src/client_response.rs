//! Typed outcomes returned to clients, one per HTTP-style status class.

use vstd::prelude::*;

verus! {

/// The outcome of a request, carrying a human-readable message.
pub enum ClientResponse {
    Success(String),
    BadRequest(String),
    Unauthorized(String),
    NotAcceptable(String),
    Conflict(String),
    InternalServerError(String),
    NotImplemented(String),
    ServiceUnavailable(String),
}

impl ClientResponse {
    /// True when the response reports success.
    pub open spec fn spec_is_ok(&self) -> bool {
        self is Success
    }

    /// Returns whether the response reports success.
    pub fn is_ok(&self) -> (r: bool)
        ensures
            r == self.spec_is_ok(),
    {
        match self {
            ClientResponse::Success(_) => true,
            _ => false,
        }
    }

    /// The message carried by the response.
    pub fn message(&self) -> (r: &String)
        ensures
            r@ == self.spec_message(),
    {
        match self {
            ClientResponse::Success(m) => m,
            ClientResponse::BadRequest(m) => m,
            ClientResponse::Unauthorized(m) => m,
            ClientResponse::NotAcceptable(m) => m,
            ClientResponse::Conflict(m) => m,
            ClientResponse::InternalServerError(m) => m,
            ClientResponse::NotImplemented(m) => m,
            ClientResponse::ServiceUnavailable(m) => m,
        }
    }

    /// The message carried by the response, as a sequence of characters.
    pub open spec fn spec_message(&self) -> Seq<char> {
        match self {
            ClientResponse::Success(m) => m@,
            ClientResponse::BadRequest(m) => m@,
            ClientResponse::Unauthorized(m) => m@,
            ClientResponse::NotAcceptable(m) => m@,
            ClientResponse::Conflict(m) => m@,
            ClientResponse::InternalServerError(m) => m@,
            ClientResponse::NotImplemented(m) => m@,
            ClientResponse::ServiceUnavailable(m) => m@,
        }
    }
}

} // verus!
