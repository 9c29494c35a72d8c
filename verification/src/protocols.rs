//! Protocols used to test the daemon end to end.

use vstd::prelude::*;
use crate::text::concat;

verus! {

/// The test protocols.
#[derive(Clone, Copy, Debug, PartialEq, Eq, Structural)]
pub enum TestProtocol {
    Echo,
    Shell,
}

/// A message to echo.
#[derive(Debug)]
pub struct EchoRequest {
    pub message: String,
}

/// The echoed message.
#[derive(Debug)]
pub struct EchoResponse {
    pub echoed: String,
}

/// Errors of the echo protocol.
#[derive(Debug)]
pub enum EchoError {
    InvalidMessage(String),
}

/// The message of an [`EchoError`].
pub open spec fn echo_error_message(e: EchoError) -> Seq<char> {
    match e {
        EchoError::InvalidMessage(m) => "Invalid message: "@ + m@,
    }
}

impl EchoError {
    /// The message of this error.
    pub fn to_string(&self) -> (s: String)
        ensures
            s@ == echo_error_message(*self),
    {
        match self {
            EchoError::InvalidMessage(m) => concat("Invalid message: ", m.as_str()),
        }
    }
}

} // verus!
