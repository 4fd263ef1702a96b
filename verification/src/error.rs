//! The two ways in which decoding a reply can fail.

use vstd::prelude::*;
use vstd::string::StringExecFns;

verus! {

/// Why no calendar came out of a reply.
#[derive(Clone, Copy, Debug, PartialEq, Eq, Structural)]
pub enum Error {
    /// The record, a date code, a time code or the date they give is
    /// malformed, or the service declined to describe an event.
    ParseFailure,
    /// The service returned no candidate reply at all.
    NoResponse,
}

impl Error {
    /// The text that describes the failure.
    pub open spec fn message_text(self) -> Seq<char> {
        match self {
            Error::ParseFailure => "Failed to parse response from Groq API"@,
            Error::NoResponse => "No response from Groq API"@,
        }
    }

    /// The text that describes the failure.
    pub fn message(&self) -> (r: String)
        ensures
            r@ == self.message_text(),
    {
        match self {
            Error::ParseFailure => String::from_str("Failed to parse response from Groq API"),
            Error::NoResponse => String::from_str("No response from Groq API"),
        }
    }
}

} // verus!
