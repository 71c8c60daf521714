//! The ways in which building a client or fetching data can fail.

use vstd::prelude::*;
use vstd::string::*;

verus! {

/// Why a client could not be built or a fetch gave no data.
#[derive(Clone, Copy, Debug, PartialEq, Eq, Structural)]
pub enum ServiceError {
    /// The credentials or the target cannot be put into a request.
    Configuration,
    /// No complete response arrived.
    Transport,
    /// The response body is not a JSON object.
    ResponseFormat,
}

impl ServiceError {
    /// The text that `message` returns.
    pub open spec fn message_text(self) -> Seq<char> {
        match self {
            ServiceError::Configuration => "configuration error: the request cannot be formed"@,
            ServiceError::Transport => "transport error: no complete response arrived"@,
            ServiceError::ResponseFormat => "response format error: the body is not a JSON object"@,
        }
    }

    /// A line for people to read, one fixed text per kind of error.
    pub fn message(&self) -> (text: String)
        ensures
            text@ == self.message_text(),
    {
        match self {
            ServiceError::Configuration => String::from_str(
                "configuration error: the request cannot be formed",
            ),
            ServiceError::Transport => String::from_str(
                "transport error: no complete response arrived",
            ),
            ServiceError::ResponseFormat => String::from_str(
                "response format error: the body is not a JSON object",
            ),
        }
    }
}

} // verus!
