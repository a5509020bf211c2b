//! The error type shared by every request to the remote API.

use vstd::prelude::*;

verus! {

/// What can go wrong with one request to the remote API.
///
/// The two transport-level variants hold the message of the underlying
/// failure, which is all that callers ever read of it.
#[derive(Debug)]
pub enum Error {
    /// The API answered, and its answer says that the call failed. Holds the
    /// whole reply.
    BotError(String),
    /// The request could not be sent, or its reply could not be read.
    RequestError(String),
    /// The reply is not JSON of the expected shape.
    ResponseJsonError(String),
}

pub type Result<T> = std::result::Result<T, Error>;

/// The text that an error is shown with.
pub open spec fn error_text(e: Error) -> Seq<char> {
    match e {
        Error::BotError(reply) => "bot error: "@ + reply@,
        Error::RequestError(message) => message@,
        Error::ResponseJsonError(message) => message@,
    }
}

impl Error {
    /// Renders the error for a person: a reply that reports a failure is
    /// prefixed with `bot error: `, the other two kinds are shown by the
    /// message they hold.
    pub fn to_string(&self) -> (text: String)
        ensures
            text@ == error_text(*self),
    {
        match self {
            Error::BotError(reply) => {
                let mut text = String::from_str("bot error: ");
                text.append(reply.as_str());
                text
            },
            Error::RequestError(message) => message.clone(),
            Error::ResponseJsonError(message) => message.clone(),
        }
    }
}

} // verus!
