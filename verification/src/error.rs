use vstd::prelude::*;
use vstd::string::StringExecFns;

use crate::protocol::error::ProtocolError;

verus! {

/// An error of the server.
#[derive(Debug)]
pub enum CordError {
    /// A message could not be read or written.
    Protocol(ProtocolError),
    /// A field of a message is missing or has the wrong kind: its name.
    MissingField(&'static str),
    /// A message or part of one is malformed: the description.
    Invalid(&'static str),
    /// A message names a type that the server does not know.
    UnknownMessageType(String),
    /// An input or output operation failed, with its description.
    Io(String),
    /// Anything else, with its description.
    Other(String),
}

impl CordError {
    /// The description of an error.
    pub open spec fn spec_message(self) -> Seq<char> {
        match self {
            CordError::Protocol(e) => e.spec_message(),
            CordError::MissingField(f) => "Missing or invalid '"@ + f@ + "' field"@,
            CordError::Invalid(m) => m@,
            CordError::UnknownMessageType(t) => "Unknown message type: "@ + t@,
            CordError::Io(m) => m@,
            CordError::Other(m) => m@,
        }
    }

    /// The description of this error.
    pub fn message(&self) -> (r: String)
        ensures
            r@ == self.spec_message(),
    {
        match self {
            CordError::Protocol(e) => e.message(),
            CordError::MissingField(f) => {
                let mut s = String::from_str("Missing or invalid '");
                s.append(f);
                s.append("' field");
                s
            },
            CordError::Invalid(m) => String::from_str(m),
            CordError::UnknownMessageType(t) => {
                let mut s = String::from_str("Unknown message type: ");
                s.append(t.as_str());
                s
            },
            CordError::Io(m) => m.clone(),
            CordError::Other(m) => m.clone(),
        }
    }
}

/// The result type of the server's fallible operations.
pub type Result<T> = core::result::Result<T, CordError>;

} // verus!
