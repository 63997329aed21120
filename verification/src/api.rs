//! The short messages that the service answers with.

use crate::error::EngineError;
use vstd::prelude::*;

verus! {

/// A message for the client.
#[derive(Debug, PartialEq)]
pub struct Response {
    pub message: String,
}

impl View for Response {
    type V = Seq<char>;

    open spec fn view(&self) -> Seq<char> {
        self.message@
    }
}

impl Response {
    /// The answer to a health check.
    pub fn healthcheck() -> (r: Response)
        ensures
            r@ == "Everything is working fine"@,
    {
        Response { message: "Everything is working fine".to_owned() }
    }

    /// The answer for a path that the service does not serve.
    pub fn not_found() -> (r: Response)
        ensures
            r@ == "Resource not found"@,
    {
        Response { message: "Resource not found".to_owned() }
    }

    /// The answer for a failed request: the status to send and the message
    /// of the failure.
    pub fn failure(error: &EngineError) -> (r: (u16, Response))
        ensures
            r.0 == error@.status(),
            r.1@ == error@.message(),
    {
        (error.status(), Response { message: error.message() })
    }
}

} // verus!
