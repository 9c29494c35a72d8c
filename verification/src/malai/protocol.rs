//! Types exchanged when HTTP traffic is forwarded over a peer-to-peer stream.

use vstd::prelude::*;
use crate::text::concat;

verus! {

/// Protocol for HTTP tunneling over P2P.
#[derive(Clone, Copy, Debug, PartialEq, Eq, Structural)]
pub enum HttpProtocol {
    /// Forward HTTP requests/responses.
    Forward,
}

/// HTTP request to be sent over P2P.
#[derive(Debug)]
pub struct HttpRequest {
    pub method: String,
    pub uri: String,
    pub headers: Vec<(String, String)>,
    pub body: Vec<u8>,
}

/// HTTP response to be sent over P2P.
#[derive(Debug)]
pub struct HttpResponse {
    pub status: u16,
    pub headers: Vec<(String, String)>,
    pub body: Vec<u8>,
}

/// Errors that can occur during HTTP forwarding; each carries the text of
/// what went wrong.
#[derive(Debug)]
pub enum HttpError {
    UpstreamConnection(String),
    ParseError(String),
    Io(String),
    P2p { source: String },
}

/// The message of an [`HttpError`].
pub open spec fn http_error_message(e: HttpError) -> Seq<char> {
    match e {
        HttpError::UpstreamConnection(m) => "Failed to connect to upstream: "@ + m@,
        HttpError::ParseError(m) => "Failed to parse HTTP: "@ + m@,
        HttpError::Io(m) => "IO error: "@ + m@,
        HttpError::P2p { source } => "P2P error: "@ + source@,
    }
}

impl HttpError {
    /// The message of this error.
    pub fn to_string(&self) -> (s: String)
        ensures
            s@ == http_error_message(*self),
    {
        proof {
            reveal_strlit("Failed to connect to upstream: ");
            reveal_strlit("Failed to parse HTTP: ");
            reveal_strlit("IO error: ");
            reveal_strlit("P2P error: ");
        }
        match self {
            HttpError::UpstreamConnection(m) => concat("Failed to connect to upstream: ", m.as_str()),
            HttpError::ParseError(m) => concat("Failed to parse HTTP: ", m.as_str()),
            HttpError::Io(m) => concat("IO error: ", m.as_str()),
            HttpError::P2p { source } => concat("P2P error: ", source.as_str()),
        }
    }
}

} // verus!
