use vstd::prelude::*;
use vstd::string::StringExecFns;

use crate::util::text::{push_char, push_hex, hex};

verus! {

/// What went wrong while reading or writing one of the wire formats.
#[derive(Debug, Clone, PartialEq, Eq)]
pub enum ProtocolError {
    InvalidLength,
    InvalidMapKey,
    InvalidSyntax(&'static str),
    InvalidUtf8,
    UnexpectedByte(u8),
    UnexpectedChar(char),
    UnexpectedEnd,
}

impl ProtocolError {
    /// The description of an error.
    pub open spec fn spec_message(self) -> Seq<char> {
        match self {
            ProtocolError::InvalidLength => "Invalid data length"@,
            ProtocolError::InvalidMapKey => "Invalid map key"@,
            ProtocolError::InvalidSyntax(m) => "Invalid syntax: "@ + m@,
            ProtocolError::InvalidUtf8 => "Invalid utf8"@,
            ProtocolError::UnexpectedByte(b) => "Unexpected byte: 0x"@ + hex(b as nat),
            ProtocolError::UnexpectedChar(c) => "Unexpected character: '"@ + seq![c] + "'"@,
            ProtocolError::UnexpectedEnd => "Unexpected end of input"@,
        }
    }

    /// The description of this error.
    pub fn message(&self) -> (r: String)
        ensures
            r@ == self.spec_message(),
    {
        match self {
            ProtocolError::InvalidLength => String::from_str("Invalid data length"),
            ProtocolError::InvalidMapKey => String::from_str("Invalid map key"),
            ProtocolError::InvalidSyntax(m) => {
                let mut s = String::from_str("Invalid syntax: ");
                s.append(m);
                s
            },
            ProtocolError::InvalidUtf8 => String::from_str("Invalid utf8"),
            ProtocolError::UnexpectedByte(b) => {
                let mut s = String::from_str("Unexpected byte: 0x");
                push_hex(&mut s, *b);
                s
            },
            ProtocolError::UnexpectedChar(c) => {
                let mut s = String::from_str("Unexpected character: '");
                push_char(&mut s, *c);
                s.append("'");
                s
            },
            ProtocolError::UnexpectedEnd => String::from_str("Unexpected end of input"),
        }
    }
}

} // verus!
