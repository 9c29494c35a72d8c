//! Echo protocol handler: answers each message with the message itself.

use vstd::prelude::*;
use crate::text::{concat, owned, utf8_len, utf8_len_exceeds};
use super::super::test_protocols::{EchoError, EchoRequest, EchoResponse};

verus! {

/// Echo protocol implementation.
pub struct EchoProtocol;

impl EchoProtocol {
    /// Protocol name.
    pub const NAME: &'static str = "Echo";
}

/// The longest message accepted, in bytes of UTF-8.
pub const MAX_MESSAGE_BYTES: usize = 1000;

/// What the echo handler answers to `message`: the message prefixed with
/// `Echo: `, or an error for an empty message or one longer than 1000 bytes.
pub open spec fn echo_reply(message: Seq<char>) -> Result<Seq<char>, Seq<char>> {
    if message.len() == 0 {
        Err("Message cannot be empty"@)
    } else if utf8_len(message) > 1000 {
        Err("Message too long (max 1000 chars)"@)
    } else {
        Ok("Echo: "@ + message)
    }
}

/// Handles an echo request.
pub fn echo_handler(request: EchoRequest) -> (r: Result<EchoResponse, EchoError>)
    ensures
        match r {
            Ok(resp) => echo_reply(request.message@) == Ok::<Seq<char>, Seq<char>>(resp.echoed@),
            Err(EchoError::InvalidMessage(m)) => echo_reply(request.message@) == Err::<Seq<char>, Seq<char>>(m@),
        },
{
    if request.message.as_str().is_empty() {
        return Err(EchoError::InvalidMessage(owned("Message cannot be empty")));
    }
    if utf8_len_exceeds(request.message.as_str(), MAX_MESSAGE_BYTES) {
        return Err(EchoError::InvalidMessage(owned("Message too long (max 1000 chars)")));
    }
    Ok(EchoResponse { echoed: concat("Echo: ", request.message.as_str()) })
}

} // verus!
