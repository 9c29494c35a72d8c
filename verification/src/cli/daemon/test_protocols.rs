//! Protocols the daemon uses in its end-to-end tests.

use vstd::prelude::*;
use crate::text::concat;

verus! {

/// Name of the echo protocol.
pub const ECHO_PROTOCOL: &'static str = "Echo";

/// Name of the shell protocol.
pub const SHELL_PROTOCOL: &'static str = "Shell";

/// Echo protocol identifier.
#[derive(Clone, Copy, Debug, PartialEq, Eq, Structural)]
pub enum EchoProtocol {
    Echo,
}

/// A message to echo.
#[derive(Debug)]
pub struct EchoRequest {
    pub message: String,
}

/// The echoed message.
#[derive(Debug)]
pub struct EchoResponse {
    pub echoed: String,
}

/// Errors of the echo protocol.
#[derive(Debug)]
pub enum EchoError {
    InvalidMessage(String),
}

/// The message of an [`EchoError`].
pub open spec fn echo_error_message(e: EchoError) -> Seq<char> {
    match e {
        EchoError::InvalidMessage(m) => "Invalid message: "@ + m@,
    }
}

impl EchoError {
    /// The message of this error.
    pub fn to_string(&self) -> (s: String)
        ensures
            s@ == echo_error_message(*self),
    {
        match self {
            EchoError::InvalidMessage(m) => concat("Invalid message: ", m.as_str()),
        }
    }
}

/// Result of an echo request.
pub type EchoResult = Result<EchoResponse, EchoError>;

/// What the test echo handler answers to `message`: the message prefixed
/// with `Echo: `, or an error for an empty message.
pub open spec fn test_echo_reply(message: Seq<char>) -> Result<Seq<char>, Seq<char>> {
    if message.len() == 0 {
        Err("Message cannot be empty"@)
    } else {
        Ok("Echo: "@ + message)
    }
}

/// Answers an echo request.
pub fn echo_handler(req: EchoRequest) -> (r: EchoResult)
    ensures
        match r {
            Ok(resp) => test_echo_reply(req.message@) == Ok::<Seq<char>, Seq<char>>(resp.echoed@),
            Err(EchoError::InvalidMessage(m)) => test_echo_reply(req.message@) == Err::<Seq<char>, Seq<char>>(
                m@,
            ),
        },
{
    if req.message.as_str().is_empty() {
        return Err(EchoError::InvalidMessage(crate::text::owned("Message cannot be empty")));
    }
    Ok(EchoResponse { echoed: concat("Echo: ", req.message.as_str()) })
}

} // verus!
