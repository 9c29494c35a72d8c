//! Connection handshake.
//!
//! Every connection starts with a handshake stream.  The client sends a
//! [`ClientHello`] listing the protocols it wants to use (each as the compact
//! JSON text of its identifier); the server answers with a [`ServerHello`]
//! that either accepts a subset of them or fails with a [`HandshakeError`].

use vstd::prelude::*;
use crate::text::owned;

verus! {

/// Handshake error codes.
#[derive(Clone, Copy, Debug, PartialEq, Eq, Structural)]
pub enum HandshakeError {
    /// Client is not authorized to connect.
    Unauthorized,
    /// No common protocols between client and server.
    NoCommonProtocols,
    /// Invalid authentication token.
    InvalidToken,
    /// Server is at capacity.
    ServerFull,
    /// Internal server error.
    InternalError,
}

/// The variant name of a handshake error (how it is printed for debugging).
pub open spec fn handshake_error_name(e: HandshakeError) -> Seq<char> {
    match e {
        HandshakeError::Unauthorized => "Unauthorized"@,
        HandshakeError::NoCommonProtocols => "NoCommonProtocols"@,
        HandshakeError::InvalidToken => "InvalidToken"@,
        HandshakeError::ServerFull => "ServerFull"@,
        HandshakeError::InternalError => "InternalError"@,
    }
}

impl HandshakeError {
    /// The variant name of this error.
    pub fn name(&self) -> (s: String)
        ensures
            s@ == handshake_error_name(*self),
    {
        match self {
            HandshakeError::Unauthorized => owned("Unauthorized"),
            HandshakeError::NoCommonProtocols => owned("NoCommonProtocols"),
            HandshakeError::InvalidToken => owned("InvalidToken"),
            HandshakeError::ServerFull => owned("ServerFull"),
            HandshakeError::InternalError => owned("InternalError"),
        }
    }
}

/// The handshake protocol identifier.
pub const HANDSHAKE_PROTOCOL: &'static str = "fastn-p2p-handshake-v1";

/// Compact JSON text of the handshake protocol identifier (a JSON string).
pub const HANDSHAKE_PROTOCOL_JSON: &'static str = "\"fastn-p2p-handshake-v1\"";

/// Compact JSON text of the identifier of application streams (a JSON string).
pub const APP_PROTOCOL_JSON: &'static str = "\"fastn-p2p\"";

/// Name the server gives in a successful handshake.
pub const SERVER_NAME: &'static str = "fastn-p2p-server";

/// Version the server gives in a successful handshake.
pub const SERVER_VERSION: &'static str = "0.1.0";

/// Name the client gives in its hello.
pub const CLIENT_NAME: &'static str = "fastn-p2p-client";

/// Version the client gives in its hello.
pub const CLIENT_VERSION: &'static str = "0.1.0";

/// Client's initial handshake message.
pub struct ClientHello {
    /// Client application name.
    pub client_name: String,
    /// Client version.
    pub client_version: String,
    /// Protocols the client wants to use, each as compact JSON text.
    pub supported_protocols: Vec<String>,
    /// Optional authentication token.
    pub auth_token: Option<String>,
}

/// The mathematical value of a [`ClientHello`].
pub struct ClientHelloSpec {
    pub client_name: Seq<char>,
    pub client_version: Seq<char>,
    pub supported_protocols: Seq<Seq<char>>,
    pub auth_token: Option<Seq<char>>,
}

impl View for ClientHello {
    type V = ClientHelloSpec;

    open spec fn view(&self) -> ClientHelloSpec {
        ClientHelloSpec {
            client_name: self.client_name@,
            client_version: self.client_version@,
            supported_protocols: self.supported_protocols.deep_view(),
            auth_token: self.auth_token.deep_view(),
        }
    }
}

impl ClientHello {
    /// A hello with the given name and version, no protocols and no token.
    pub fn new(client_name: &str, client_version: &str) -> (h: Self)
        ensures
            h@ == (ClientHelloSpec {
                client_name: client_name@,
                client_version: client_version@,
                supported_protocols: Seq::empty(),
                auth_token: None,
            }),
    {
        let h = ClientHello {
            client_name: owned(client_name),
            client_version: owned(client_version),
            supported_protocols: Vec::new(),
            auth_token: None,
        };
        assert(h@.supported_protocols =~= Seq::<Seq<char>>::empty());
        h
    }

    /// Adds a protocol, given as the result of converting it to JSON text:
    /// a protocol that could not be converted is left out.
    pub fn with_protocol(self, protocol_json: Option<String>) -> (h: Self)
        ensures
            h@ == (ClientHelloSpec {
                supported_protocols: match protocol_json {
                    Some(p) => self@.supported_protocols.push(p@),
                    None => self@.supported_protocols,
                },
                ..self@
            }),
    {
        let mut h = self;
        match protocol_json {
            Some(p) => {
                h.supported_protocols.push(p);
                assert(h@.supported_protocols =~= self@.supported_protocols.push(p@));
            },
            None => {},
        }
        h
    }

    /// Sets the authentication token.
    pub fn with_auth(self, token: String) -> (h: Self)
        ensures
            h@ == (ClientHelloSpec { auth_token: Some(token@), ..self@ }),
    {
        let mut h = self;
        h.auth_token = Some(token);
        h
    }
}

/// Server's response to a [`ClientHello`].
pub enum ServerHello {
    Success {
        /// Server name.
        server_name: String,
        /// Server version.
        server_version: String,
        /// Protocols accepted by the server (a subset of the client's list).
        accepted_protocols: Vec<String>,
    },
    Failure {
        /// Error code for programmatic handling.
        code: HandshakeError,
    },
}

/// The mathematical value of a [`ServerHello`].
pub enum ServerHelloSpec {
    Success { server_name: Seq<char>, server_version: Seq<char>, accepted_protocols: Seq<Seq<char>> },
    Failure { code: HandshakeError },
}

impl View for ServerHello {
    type V = ServerHelloSpec;

    open spec fn view(&self) -> ServerHelloSpec {
        match self {
            ServerHello::Success { server_name, server_version, accepted_protocols } => ServerHelloSpec::Success {
                server_name: server_name@,
                server_version: server_version@,
                accepted_protocols: accepted_protocols.deep_view(),
            },
            ServerHello::Failure { code } => ServerHelloSpec::Failure { code: *code },
        }
    }
}

/// The successful answer accepting `accepted`.
pub open spec fn success_hello(accepted: Seq<Seq<char>>) -> ServerHelloSpec {
    ServerHelloSpec::Success {
        server_name: SERVER_NAME@,
        server_version: SERVER_VERSION@,
        accepted_protocols: accepted,
    }
}

impl ServerHello {
    /// A successful answer that accepts no protocol yet.
    pub fn success() -> (h: Self)
        ensures
            h@ == success_hello(Seq::empty()),
    {
        let accepted: Vec<String> = Vec::new();
        assert(accepted.deep_view() =~= Seq::<Seq<char>>::empty());
        ServerHello::Success {
            server_name: owned(SERVER_NAME),
            server_version: owned(SERVER_VERSION),
            accepted_protocols: accepted,
        }
    }

    /// A successful answer that accepts the given protocols.
    pub fn success_with(accepted: Vec<String>) -> (h: Self)
        ensures
            h@ == success_hello(accepted.deep_view()),
    {
        ServerHello::Success {
            server_name: owned(SERVER_NAME),
            server_version: owned(SERVER_VERSION),
            accepted_protocols: accepted,
        }
    }

    /// A failed answer with the given code.
    pub fn failure(code: HandshakeError) -> (h: Self)
        ensures
            h@ == (ServerHelloSpec::Failure { code }),
    {
        ServerHello::Failure { code }
    }

    /// Whether this answer is a failure.
    pub fn is_failure(&self) -> (b: bool)
        ensures
            b == (self@ is Failure),
    {
        match self {
            ServerHello::Failure { .. } => true,
            _ => false,
        }
    }
}

} // verus!
