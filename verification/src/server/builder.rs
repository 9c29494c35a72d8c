//! Server side of a connection.
//!
//! A server keeps a [`HandlerRegistry`]: the protocols (as compact JSON text)
//! it answers with a request/response handler and those it answers with a
//! streaming handler.  Each accepted connection is driven by a
//! [`ServerConnection`]: the caller performs the I/O that the returned
//! [`ConnectionAction`] asks for and feeds back what happened as a
//! [`ConnectionEvent`].
//!
//! The first stream of a connection must be the handshake stream.  The server
//! reads the client's hello, refuses unauthorized peers, accepts the offered
//! protocols it has a handler for, and refuses the connection when none is
//! left.  After that, every application stream carries a wrapper request
//! naming a protocol; once the stream is authorized it goes to the streaming
//! handler of that protocol if there is one, else to its request handler,
//! else it is answered with a "no handler" line.

use vstd::prelude::*;
use crate::handshake::{
    ClientHello, ClientHelloSpec, HandshakeError, ServerHello, ServerHelloSpec, success_hello,
    APP_PROTOCOL_JSON, HANDSHAKE_PROTOCOL_JSON,
};
use crate::net::protocol::{Protocol, ProtocolSpec};
use crate::text::{concat, contains_text, owned};

verus! {

// ---------------------------------------------------------------- registry

/// Protocols a server has handlers for, each as compact JSON text.
pub struct HandlerRegistry {
    request_protocols: Vec<String>,
    stream_protocols: Vec<String>,
}

/// The mathematical value of a [`HandlerRegistry`]: the protocols with a
/// request handler and those with a streaming handler.
pub struct RegistrySpec {
    pub requests: Seq<Seq<char>>,
    pub streams: Seq<Seq<char>>,
}

impl View for HandlerRegistry {
    type V = RegistrySpec;

    closed spec fn view(&self) -> RegistrySpec {
        RegistrySpec { requests: self.request_protocols.deep_view(), streams: self.stream_protocols.deep_view() }
    }
}

/// Whether the registry has any handler for protocol `p`.
pub open spec fn handles(reg: RegistrySpec, p: Seq<char>) -> bool {
    reg.requests.contains(p) || reg.streams.contains(p)
}

/// Adds `p` to `keys` unless it is already there (a handler registered again
/// for the same protocol replaces the earlier one, leaving the key set alone).
pub open spec fn add_key(keys: Seq<Seq<char>>, p: Seq<char>) -> Seq<Seq<char>> {
    if keys.contains(p) {
        keys
    } else {
        keys.push(p)
    }
}

/// Adds `p` to `keys` unless it is already there.
fn insert_key(keys: &mut Vec<String>, p: String)
    requires
        old(keys).deep_view().no_duplicates(),
    ensures
        final(keys).deep_view() == add_key(old(keys).deep_view(), p@),
        final(keys).deep_view().no_duplicates(),
{
    if !contains_text(keys, p.as_str()) {
        let ghost before = keys.deep_view();
        keys.push(p);
        assert(keys.deep_view() =~= before.push(p@));
    }
}

impl HandlerRegistry {
    /// The registry's key lists hold every protocol at most once.
    #[verifier::type_invariant]
    spec fn keys_unique(self) -> bool {
        self.request_protocols.deep_view().no_duplicates() && self.stream_protocols.deep_view().no_duplicates()
    }

    /// A registry without handlers.
    pub fn new() -> (r: Self)
        ensures
            r@.requests == Seq::<Seq<char>>::empty(),
            r@.streams == Seq::<Seq<char>>::empty(),
    {
        let r = HandlerRegistry { request_protocols: Vec::new(), stream_protocols: Vec::new() };
        assert(r@.requests =~= Seq::<Seq<char>>::empty());
        assert(r@.streams =~= Seq::<Seq<char>>::empty());
        r
    }

    /// Records a request/response handler for protocol `protocol_json`.
    pub fn register_request(&mut self, protocol_json: String)
        ensures
            final(self)@.requests == add_key(old(self)@.requests, protocol_json@),
            final(self)@.streams == old(self)@.streams,
            final(self)@.requests.contains(protocol_json@),
            forall|k: Seq<char>|
                #[trigger] final(self)@.requests.contains(k) <==> (old(self)@.requests.contains(k) || k
                    == protocol_json@),
    {
        proof {
            use_type_invariant(&*self);
            lemma_registered_is_handled(self@.requests, protocol_json@);
        }
        let mut keys: Vec<String> = Vec::new();
        std::mem::swap(&mut keys, &mut self.request_protocols);
        insert_key(&mut keys, protocol_json);
        self.request_protocols = keys;
    }

    /// Records a streaming handler for protocol `protocol_json`.
    pub fn register_stream(&mut self, protocol_json: String)
        ensures
            final(self)@.streams == add_key(old(self)@.streams, protocol_json@),
            final(self)@.requests == old(self)@.requests,
            final(self)@.streams.contains(protocol_json@),
            forall|k: Seq<char>|
                #[trigger] final(self)@.streams.contains(k) <==> (old(self)@.streams.contains(k) || k
                    == protocol_json@),
    {
        proof {
            use_type_invariant(&*self);
            lemma_registered_is_handled(self@.streams, protocol_json@);
        }
        let mut keys: Vec<String> = Vec::new();
        std::mem::swap(&mut keys, &mut self.stream_protocols);
        insert_key(&mut keys, protocol_json);
        self.stream_protocols = keys;
    }

    /// Whether there is a request/response handler for `protocol_json`.
    pub fn handles_request(&self, protocol_json: &str) -> (b: bool)
        ensures
            b == self@.requests.contains(protocol_json@),
    {
        contains_text(&self.request_protocols, protocol_json)
    }

    /// Whether there is a streaming handler for `protocol_json`.
    pub fn handles_stream(&self, protocol_json: &str) -> (b: bool)
        ensures
            b == self@.streams.contains(protocol_json@),
    {
        contains_text(&self.stream_protocols, protocol_json)
    }
}

// ---------------------------------------------------------------- handshake reply

/// The client's protocols that the server has a handler for, in the client's order.
pub open spec fn accepted_protocols(supported: Seq<Seq<char>>, reg: RegistrySpec) -> Seq<Seq<char>>
    decreases supported.len(),
{
    if supported.len() == 0 {
        Seq::empty()
    } else {
        let rest = accepted_protocols(supported.drop_last(), reg);
        if handles(reg, supported.last()) {
            rest.push(supported.last())
        } else {
            rest
        }
    }
}

/// The server's answer to a hello offering `supported`: refused when the peer
/// is not allowed to connect, refused when no offered protocol is handled,
/// otherwise a success accepting the handled ones.
pub open spec fn handshake_reply(supported: Seq<Seq<char>>, reg: RegistrySpec, connection_allowed: bool) -> ServerHelloSpec {
    if !connection_allowed {
        ServerHelloSpec::Failure { code: HandshakeError::Unauthorized }
    } else if accepted_protocols(supported, reg).len() == 0 {
        ServerHelloSpec::Failure { code: HandshakeError::NoCommonProtocols }
    } else {
        success_hello(accepted_protocols(supported, reg))
    }
}

/// The offered protocols that `registry` handles, in the offered order.
pub fn accept_protocols(supported: &Vec<String>, registry: &HandlerRegistry) -> (out: Vec<String>)
    ensures
        out.deep_view() == accepted_protocols(supported.deep_view(), registry@),
{
    let mut out: Vec<String> = Vec::new();
    let mut i: usize = 0;
    while i < supported.len()
        invariant
            i <= supported.len(),
            out.deep_view() == accepted_protocols(supported.deep_view().take(i as int), registry@),
        decreases supported.len() - i,
    {
        let ghost before = out.deep_view();
        assert(supported.deep_view().take(i + 1).drop_last() =~= supported.deep_view().take(i as int));
        assert(supported.deep_view().take(i + 1).last() == supported.deep_view()[i as int]);
        let p = supported[i].as_str();
        if registry.handles_request(p) || registry.handles_stream(p) {
            out.push(supported[i].clone());
            assert(out.deep_view() =~= before.push(supported.deep_view()[i as int]));
        }
        i = i + 1;
    }
    assert(supported.deep_view().take(supported.len() as int) =~= supported.deep_view());
    out
}

/// The server's answer to `hello`.
pub fn reply_to_hello(hello: &ClientHello, registry: &HandlerRegistry, connection_allowed: bool) -> (h: ServerHello)
    ensures
        h@ == handshake_reply(hello@.supported_protocols, registry@, connection_allowed),
{
    if !connection_allowed {
        return ServerHello::failure(HandshakeError::Unauthorized);
    }
    let accepted = accept_protocols(&hello.supported_protocols, registry);
    if accepted.len() == 0 {
        ServerHello::failure(HandshakeError::NoCommonProtocols)
    } else {
        ServerHello::success_with(accepted)
    }
}

// ---------------------------------------------------------------- connection state machine

/// Where a connection stands.
#[derive(Clone, Copy, Debug, PartialEq, Eq, Structural)]
pub enum ConnectionPhase {
    /// Waiting for the first stream, which must be the handshake stream.
    AwaitingHandshakeStream,
    /// Waiting for the client's hello on the handshake stream.
    AwaitingClientHello,
    /// Handshake done; waiting for the next application stream.
    Serving,
    /// An application stream was accepted; waiting for its wrapper request.
    AwaitingWrapper,
    /// Waiting for the verdict of the stream authorization hook.
    AwaitingStreamAuth,
    /// A streaming handler is running.
    AwaitingStreamHandler,
    /// A request handler is running; waiting for its reply.
    AwaitingRequestReply,
    /// The request handler's reply is being written; waiting until it is sent.
    AwaitingResponseSent,
    /// The connection is over.
    Closed,
}

/// Why the server closes a connection during the handshake.
#[derive(Clone, Copy, Debug, PartialEq, Eq, Structural)]
pub enum CloseReason {
    HandshakeRequired,
    InvalidHandshake,
    Unauthorized,
    NoCompatibleProtocols,
}

/// The reason text sent when closing.
pub open spec fn close_reason_text(r: CloseReason) -> Seq<char> {
    match r {
        CloseReason::HandshakeRequired => "Handshake required"@,
        CloseReason::InvalidHandshake => "Invalid handshake"@,
        CloseReason::Unauthorized => "Unauthorized"@,
        CloseReason::NoCompatibleProtocols => "No compatible protocols"@,
    }
}

impl CloseReason {
    /// The reason text sent when closing.
    pub fn text(&self) -> (s: String)
        ensures
            s@ == close_reason_text(*self),
    {
        match self {
            CloseReason::HandshakeRequired => owned("Handshake required"),
            CloseReason::InvalidHandshake => owned("Invalid handshake"),
            CloseReason::Unauthorized => owned("Unauthorized"),
            CloseReason::NoCompatibleProtocols => owned("No compatible protocols"),
        }
    }
}

/// The server side of one connection.
pub struct ServerConnection {
    phase: ConnectionPhase,
    pending_protocol: String,
    pending_debug: String,
    pending_data: String,
}

/// The mathematical value of a [`ServerConnection`]: its phase, and for the
/// current application stream the protocol, its debugging text and the
/// request data.
pub struct ConnectionSpec {
    pub phase: ConnectionPhase,
    pub pending: Seq<char>,
    pub pending_debug: Seq<char>,
    pub pending_data: Seq<char>,
}

impl View for ServerConnection {
    type V = ConnectionSpec;

    closed spec fn view(&self) -> ConnectionSpec {
        ConnectionSpec {
            phase: self.phase,
            pending: self.pending_protocol@,
            pending_debug: self.pending_debug@,
            pending_data: self.pending_data@,
        }
    }
}

/// What happened since the last action.
pub enum ConnectionEvent {
    /// A stream was accepted; its header names `protocol`.
    StreamAccepted { protocol: Protocol },
    /// Accepting a stream failed.
    AcceptFailed,
    /// The client's hello was read (`None`: it could not be read or parsed),
    /// and the connection authorization hook answered `connection_allowed`
    /// (`true` when there is no hook).
    ClientHelloRead { hello: Option<ClientHello>, connection_allowed: bool },
    /// The wrapper request was read; it names protocol `protocol_json`,
    /// which prints as `protocol_debug` for debugging (`{:?}`), and carries
    /// the data whose compact JSON text is `data_json`.
    WrapperRead { protocol_json: String, protocol_debug: String, data_json: String },
    /// The wrapper request could not be read or parsed, for the reason `error`.
    WrapperInvalid { error: String },
    /// The stream authorization hook answered `allowed` (`true` when there is no hook).
    StreamAuthChecked { allowed: bool },
    /// The streaming handler returned.
    HandlerFinished,
    /// The request handler returned the reply text `reply`.
    RequestReplied { reply: String },
    /// The request handler's response was written (`delivered`) or writing it failed.
    ResponseSent { delivered: bool },
    /// Writing to or finishing a stream failed.
    IoFailed,
}

/// The mathematical value of a [`ConnectionEvent`].
pub enum EventSpec {
    StreamAccepted { protocol: ProtocolSpec },
    AcceptFailed,
    ClientHelloRead { hello: Option<ClientHelloSpec>, connection_allowed: bool },
    WrapperRead { protocol_json: Seq<char>, protocol_debug: Seq<char>, data_json: Seq<char> },
    WrapperInvalid { error: Seq<char> },
    StreamAuthChecked { allowed: bool },
    HandlerFinished,
    RequestReplied { reply: Seq<char> },
    ResponseSent { delivered: bool },
    IoFailed,
}

impl View for ConnectionEvent {
    type V = EventSpec;

    open spec fn view(&self) -> EventSpec {
        match self {
            ConnectionEvent::StreamAccepted { protocol } => EventSpec::StreamAccepted { protocol: protocol@ },
            ConnectionEvent::AcceptFailed => EventSpec::AcceptFailed,
            ConnectionEvent::ClientHelloRead { hello, connection_allowed } => EventSpec::ClientHelloRead {
                hello: match hello {
                    Some(h) => Some(h@),
                    None => None,
                },
                connection_allowed: *connection_allowed,
            },
            ConnectionEvent::WrapperRead { protocol_json, protocol_debug, data_json } => EventSpec::WrapperRead {
                protocol_json: protocol_json@,
                protocol_debug: protocol_debug@,
                data_json: data_json@,
            },
            ConnectionEvent::WrapperInvalid { error } => EventSpec::WrapperInvalid { error: error@ },
            ConnectionEvent::StreamAuthChecked { allowed } => EventSpec::StreamAuthChecked { allowed: *allowed },
            ConnectionEvent::HandlerFinished => EventSpec::HandlerFinished,
            ConnectionEvent::RequestReplied { reply } => EventSpec::RequestReplied { reply: reply@ },
            ConnectionEvent::ResponseSent { delivered } => EventSpec::ResponseSent { delivered: *delivered },
            ConnectionEvent::IoFailed => EventSpec::IoFailed,
        }
    }
}

/// What the caller must do next.
pub enum ConnectionAction {
    /// Read the client's hello from the handshake stream.
    ReadClientHello,
    /// Close the connection with the given reason; the connection is over.
    Close { reason: CloseReason },
    /// Send `hello` as a line on the handshake stream and finish that stream;
    /// then close with `close` if given, else accept application streams.
    SendServerHello { hello: ServerHello, close: Option<CloseReason> },
    /// Accept the next application stream.
    AcceptNextStream,
    /// Read the wrapper request from the stream.
    ReadWrapper,
    /// Ask the stream authorization hook about the wrapper request.
    CheckStreamAuth,
    /// Write `line` (which ends with a line feed) on the stream, finish the
    /// stream if `finish`, then accept the next stream.
    ReplyLine { line: String, finish: bool },
    /// There is no handler for `protocol_json`: write `line` (which ends with
    /// a line feed) on the stream, then accept the next stream.
    ReportNoHandler { protocol_json: String, line: String },
    /// Hand the stream to the streaming handler of `protocol_json`, with the
    /// request data `data_json`.
    RunStreamHandler { protocol_json: String, data_json: String },
    /// Run the request handler of `protocol_json` on the request data
    /// `data_json` and report its reply.
    RunRequestHandler { protocol_json: String, data_json: String },
    /// Write `line` (the handler's reply followed by a line feed) on the
    /// stream and report whether it was sent.
    SendResponse { line: String },
    /// Finish the stream, then accept the next stream.
    FinishStream,
    /// Stop serving the connection, reporting an error if `failed`.
    Stop { failed: bool },
    /// Nothing to do: the event does not belong to the current phase.
    Ignore,
}

/// The mathematical value of a [`ConnectionAction`].
pub enum ActionSpec {
    ReadClientHello,
    Close { reason: CloseReason },
    SendServerHello { hello: ServerHelloSpec, close: Option<CloseReason> },
    AcceptNextStream,
    ReadWrapper,
    CheckStreamAuth,
    ReplyLine { line: Seq<char>, finish: bool },
    ReportNoHandler { protocol_json: Seq<char>, line: Seq<char> },
    RunStreamHandler { protocol_json: Seq<char>, data_json: Seq<char> },
    RunRequestHandler { protocol_json: Seq<char>, data_json: Seq<char> },
    SendResponse { line: Seq<char> },
    FinishStream,
    Stop { failed: bool },
    Ignore,
}

impl View for ConnectionAction {
    type V = ActionSpec;

    open spec fn view(&self) -> ActionSpec {
        match self {
            ConnectionAction::ReadClientHello => ActionSpec::ReadClientHello,
            ConnectionAction::Close { reason } => ActionSpec::Close { reason: *reason },
            ConnectionAction::SendServerHello { hello, close } => ActionSpec::SendServerHello {
                hello: hello@,
                close: *close,
            },
            ConnectionAction::AcceptNextStream => ActionSpec::AcceptNextStream,
            ConnectionAction::ReadWrapper => ActionSpec::ReadWrapper,
            ConnectionAction::CheckStreamAuth => ActionSpec::CheckStreamAuth,
            ConnectionAction::ReplyLine { line, finish } => ActionSpec::ReplyLine { line: line@, finish: *finish },
            ConnectionAction::ReportNoHandler { protocol_json, line } => ActionSpec::ReportNoHandler {
                protocol_json: protocol_json@,
                line: line@,
            },
            ConnectionAction::RunStreamHandler { protocol_json, data_json } => ActionSpec::RunStreamHandler {
                protocol_json: protocol_json@,
                data_json: data_json@,
            },
            ConnectionAction::RunRequestHandler { protocol_json, data_json } => ActionSpec::RunRequestHandler {
                protocol_json: protocol_json@,
                data_json: data_json@,
            },
            ConnectionAction::SendResponse { line } => ActionSpec::SendResponse { line: line@ },
            ConnectionAction::FinishStream => ActionSpec::FinishStream,
            ConnectionAction::Stop { failed } => ActionSpec::Stop { failed: *failed },
            ConnectionAction::Ignore => ActionSpec::Ignore,
        }
    }
}

/// The line sent when a wrapper request cannot be parsed.
pub open spec fn wrapper_error_line(error: Seq<char>) -> Seq<char> {
    "Failed to parse wrapper request: "@ + error + "\n"@
}

/// The line sent when the stream authorization hook refuses a stream.
pub open spec fn denied_line() -> Seq<char> {
    "Authorization denied\n"@
}

/// The line sent for a request handler's reply `reply`.
pub open spec fn reply_line(reply: Seq<char>) -> Seq<char> {
    reply + "\n"@
}

/// The line sent for a request handler's reply: the reply and a line feed.
pub fn request_reply_line(reply: &str) -> (s: String)
    ensures
        s@ == reply_line(reply@),
{
    concat(reply, "\n")
}

/// The line sent when no handler serves the protocol that prints as `debug`.
pub open spec fn no_handler_line(debug: Seq<char>) -> Seq<char> {
    "No handler for protocol: "@ + debug + "\n"@
}

/// The state `s` with phase `phase`.
pub open spec fn with_phase(s: ConnectionSpec, phase: ConnectionPhase) -> ConnectionSpec {
    ConnectionSpec { phase, ..s }
}

/// One step of the server side of a connection: the next state and the action
/// asked of the caller.
pub open spec fn connection_step(s: ConnectionSpec, reg: RegistrySpec, e: EventSpec) -> (ConnectionSpec, ActionSpec) {
    if s.phase == ConnectionPhase::Closed {
        (s, ActionSpec::Ignore)
    } else {
        match e {
            EventSpec::IoFailed => (with_phase(s, ConnectionPhase::Closed), ActionSpec::Stop { failed: true }),
            EventSpec::AcceptFailed => if s.phase == ConnectionPhase::AwaitingHandshakeStream || s.phase
                == ConnectionPhase::Serving {
                (with_phase(s, ConnectionPhase::Closed), ActionSpec::Stop { failed: true })
            } else {
                (s, ActionSpec::Ignore)
            },
            EventSpec::StreamAccepted { protocol } => if s.phase == ConnectionPhase::AwaitingHandshakeStream {
                if protocol == ProtocolSpec::Generic(HANDSHAKE_PROTOCOL_JSON@) {
                    (with_phase(s, ConnectionPhase::AwaitingClientHello), ActionSpec::ReadClientHello)
                } else {
                    (
                        with_phase(s, ConnectionPhase::Closed),
                        ActionSpec::Close { reason: CloseReason::HandshakeRequired },
                    )
                }
            } else if s.phase == ConnectionPhase::Serving {
                if protocol == ProtocolSpec::Generic(APP_PROTOCOL_JSON@) {
                    (with_phase(s, ConnectionPhase::AwaitingWrapper), ActionSpec::ReadWrapper)
                } else {
                    (s, ActionSpec::AcceptNextStream)
                }
            } else {
                (s, ActionSpec::Ignore)
            },
            EventSpec::ClientHelloRead { hello, connection_allowed } => if s.phase
                == ConnectionPhase::AwaitingClientHello {
                match hello {
                    None => (
                        with_phase(s, ConnectionPhase::Closed),
                        ActionSpec::Close { reason: CloseReason::InvalidHandshake },
                    ),
                    Some(h) => {
                        let reply = handshake_reply(h.supported_protocols, reg, connection_allowed);
                        if !connection_allowed {
                            (
                                with_phase(s, ConnectionPhase::Closed),
                                ActionSpec::SendServerHello { hello: reply, close: Some(CloseReason::Unauthorized) },
                            )
                        } else if reply is Failure {
                            (
                                with_phase(s, ConnectionPhase::Closed),
                                ActionSpec::SendServerHello {
                                    hello: reply,
                                    close: Some(CloseReason::NoCompatibleProtocols),
                                },
                            )
                        } else {
                            (
                                with_phase(s, ConnectionPhase::Serving),
                                ActionSpec::SendServerHello { hello: reply, close: None },
                            )
                        }
                    },
                }
            } else {
                (s, ActionSpec::Ignore)
            },
            EventSpec::WrapperInvalid { error } => if s.phase == ConnectionPhase::AwaitingWrapper {
                (
                    with_phase(s, ConnectionPhase::Serving),
                    ActionSpec::ReplyLine { line: wrapper_error_line(error), finish: false },
                )
            } else {
                (s, ActionSpec::Ignore)
            },
            EventSpec::WrapperRead { protocol_json, protocol_debug, data_json } => if s.phase
                == ConnectionPhase::AwaitingWrapper {
                (
                    ConnectionSpec {
                        phase: ConnectionPhase::AwaitingStreamAuth,
                        pending: protocol_json,
                        pending_debug: protocol_debug,
                        pending_data: data_json,
                    },
                    ActionSpec::CheckStreamAuth,
                )
            } else {
                (s, ActionSpec::Ignore)
            },
            EventSpec::StreamAuthChecked { allowed } => if s.phase == ConnectionPhase::AwaitingStreamAuth {
                if !allowed {
                    (
                        with_phase(s, ConnectionPhase::Serving),
                        ActionSpec::ReplyLine { line: denied_line(), finish: true },
                    )
                } else if reg.streams.contains(s.pending) {
                    (
                        with_phase(s, ConnectionPhase::AwaitingStreamHandler),
                        ActionSpec::RunStreamHandler { protocol_json: s.pending, data_json: s.pending_data },
                    )
                } else if reg.requests.contains(s.pending) {
                    (
                        with_phase(s, ConnectionPhase::AwaitingRequestReply),
                        ActionSpec::RunRequestHandler { protocol_json: s.pending, data_json: s.pending_data },
                    )
                } else {
                    (
                        with_phase(s, ConnectionPhase::Serving),
                        ActionSpec::ReportNoHandler {
                            protocol_json: s.pending,
                            line: no_handler_line(s.pending_debug),
                        },
                    )
                }
            } else {
                (s, ActionSpec::Ignore)
            },
            EventSpec::HandlerFinished => if s.phase == ConnectionPhase::AwaitingStreamHandler {
                (with_phase(s, ConnectionPhase::Serving), ActionSpec::AcceptNextStream)
            } else {
                (s, ActionSpec::Ignore)
            },
            EventSpec::RequestReplied { reply } => if s.phase == ConnectionPhase::AwaitingRequestReply {
                (
                    with_phase(s, ConnectionPhase::AwaitingResponseSent),
                    ActionSpec::SendResponse { line: reply_line(reply) },
                )
            } else {
                (s, ActionSpec::Ignore)
            },
            EventSpec::ResponseSent { delivered } => if s.phase == ConnectionPhase::AwaitingResponseSent {
                if delivered {
                    (with_phase(s, ConnectionPhase::Serving), ActionSpec::FinishStream)
                } else {
                    (with_phase(s, ConnectionPhase::Closed), ActionSpec::Stop { failed: false })
                }
            } else {
                (s, ActionSpec::Ignore)
            },
        }
    }
}

/// The state of a fresh connection.
pub open spec fn initial_connection() -> ConnectionSpec {
    ConnectionSpec {
        phase: ConnectionPhase::AwaitingHandshakeStream,
        pending: Seq::empty(),
        pending_debug: Seq::empty(),
        pending_data: Seq::empty(),
    }
}

impl ServerConnection {
    /// A fresh connection, waiting for its handshake stream.
    pub fn new() -> (c: Self)
        ensures
            c@ == initial_connection(),
    {
        let c = ServerConnection {
            phase: ConnectionPhase::AwaitingHandshakeStream,
            pending_protocol: String::new(),
            pending_debug: String::new(),
            pending_data: String::new(),
        };
        c
    }

    /// The current phase.
    pub fn phase(&self) -> (p: ConnectionPhase)
        ensures
            p == self@.phase,
    {
        self.phase
    }

    /// Feeds `event` to the connection and returns the action asked of the caller.
    pub fn step(&mut self, registry: &HandlerRegistry, event: ConnectionEvent) -> (a: ConnectionAction)
        ensures
            (final(self)@, a@) == connection_step(old(self)@, registry@, event@),
    {
        if self.phase == ConnectionPhase::Closed {
            return ConnectionAction::Ignore;
        }
        match event {
            ConnectionEvent::IoFailed => {
                self.phase = ConnectionPhase::Closed;
                ConnectionAction::Stop { failed: true }
            },
            ConnectionEvent::AcceptFailed => {
                if self.phase == ConnectionPhase::AwaitingHandshakeStream || self.phase == ConnectionPhase::Serving {
                    self.phase = ConnectionPhase::Closed;
                    ConnectionAction::Stop { failed: true }
                } else {
                    ConnectionAction::Ignore
                }
            },
            ConnectionEvent::StreamAccepted { protocol } => {
                if self.phase == ConnectionPhase::AwaitingHandshakeStream {
                    if protocol.is_generic_json(HANDSHAKE_PROTOCOL_JSON) {
                        self.phase = ConnectionPhase::AwaitingClientHello;
                        ConnectionAction::ReadClientHello
                    } else {
                        self.phase = ConnectionPhase::Closed;
                        ConnectionAction::Close { reason: CloseReason::HandshakeRequired }
                    }
                } else if self.phase == ConnectionPhase::Serving {
                    if protocol.is_generic_json(APP_PROTOCOL_JSON) {
                        self.phase = ConnectionPhase::AwaitingWrapper;
                        ConnectionAction::ReadWrapper
                    } else {
                        ConnectionAction::AcceptNextStream
                    }
                } else {
                    ConnectionAction::Ignore
                }
            },
            ConnectionEvent::ClientHelloRead { hello, connection_allowed } => {
                if self.phase == ConnectionPhase::AwaitingClientHello {
                    match hello {
                        None => {
                            self.phase = ConnectionPhase::Closed;
                            ConnectionAction::Close { reason: CloseReason::InvalidHandshake }
                        },
                        Some(h) => {
                            let reply = reply_to_hello(&h, registry, connection_allowed);
                            if !connection_allowed {
                                self.phase = ConnectionPhase::Closed;
                                ConnectionAction::SendServerHello { hello: reply, close: Some(CloseReason::Unauthorized) }
                            } else if reply.is_failure() {
                                self.phase = ConnectionPhase::Closed;
                                ConnectionAction::SendServerHello {
                                    hello: reply,
                                    close: Some(CloseReason::NoCompatibleProtocols),
                                }
                            } else {
                                self.phase = ConnectionPhase::Serving;
                                ConnectionAction::SendServerHello { hello: reply, close: None }
                            }
                        },
                    }
                } else {
                    ConnectionAction::Ignore
                }
            },
            ConnectionEvent::WrapperInvalid { error } => {
                if self.phase == ConnectionPhase::AwaitingWrapper {
                    self.phase = ConnectionPhase::Serving;
                    let head = concat("Failed to parse wrapper request: ", error.as_str());
                    let line = concat(head.as_str(), "\n");
                    ConnectionAction::ReplyLine { line, finish: false }
                } else {
                    ConnectionAction::Ignore
                }
            },
            ConnectionEvent::WrapperRead { protocol_json, protocol_debug, data_json } => {
                if self.phase == ConnectionPhase::AwaitingWrapper {
                    self.phase = ConnectionPhase::AwaitingStreamAuth;
                    self.pending_protocol = protocol_json;
                    self.pending_debug = protocol_debug;
                    self.pending_data = data_json;
                    ConnectionAction::CheckStreamAuth
                } else {
                    ConnectionAction::Ignore
                }
            },
            ConnectionEvent::StreamAuthChecked { allowed } => {
                if self.phase == ConnectionPhase::AwaitingStreamAuth {
                    if !allowed {
                        self.phase = ConnectionPhase::Serving;
                        ConnectionAction::ReplyLine { line: owned("Authorization denied\n"), finish: true }
                    } else if registry.handles_stream(self.pending_protocol.as_str()) {
                        self.phase = ConnectionPhase::AwaitingStreamHandler;
                        ConnectionAction::RunStreamHandler {
                            protocol_json: self.pending_protocol.clone(),
                            data_json: self.pending_data.clone(),
                        }
                    } else if registry.handles_request(self.pending_protocol.as_str()) {
                        self.phase = ConnectionPhase::AwaitingRequestReply;
                        ConnectionAction::RunRequestHandler {
                            protocol_json: self.pending_protocol.clone(),
                            data_json: self.pending_data.clone(),
                        }
                    } else {
                        self.phase = ConnectionPhase::Serving;
                        let head = concat("No handler for protocol: ", self.pending_debug.as_str());
                        let line = concat(head.as_str(), "\n");
                        ConnectionAction::ReportNoHandler { protocol_json: self.pending_protocol.clone(), line }
                    }
                } else {
                    ConnectionAction::Ignore
                }
            },
            ConnectionEvent::HandlerFinished => {
                if self.phase == ConnectionPhase::AwaitingStreamHandler {
                    self.phase = ConnectionPhase::Serving;
                    ConnectionAction::AcceptNextStream
                } else {
                    ConnectionAction::Ignore
                }
            },
            ConnectionEvent::RequestReplied { reply } => {
                if self.phase == ConnectionPhase::AwaitingRequestReply {
                    self.phase = ConnectionPhase::AwaitingResponseSent;
                    ConnectionAction::SendResponse { line: request_reply_line(reply.as_str()) }
                } else {
                    ConnectionAction::Ignore
                }
            },
            ConnectionEvent::ResponseSent { delivered } => {
                if self.phase == ConnectionPhase::AwaitingResponseSent {
                    if delivered {
                        self.phase = ConnectionPhase::Serving;
                        ConnectionAction::FinishStream
                    } else {
                        self.phase = ConnectionPhase::Closed;
                        ConnectionAction::Stop { failed: false }
                    }
                } else {
                    ConnectionAction::Ignore
                }
            },
        }
    }
}


// ---------------------------------------------------------------- laws

/// The state and the actions after feeding `evs` in order, starting from `s`.
pub open spec fn run_connection(s: ConnectionSpec, reg: RegistrySpec, evs: Seq<EventSpec>) -> (ConnectionSpec, Seq<ActionSpec>)
    decreases evs.len(),
{
    if evs.len() == 0 {
        (s, Seq::empty())
    } else {
        let (mid, acts) = run_connection(s, reg, evs.drop_last());
        let (next, a) = connection_step(mid, reg, evs.last());
        (next, acts.push(a))
    }
}

/// The action sends a successful handshake answer and keeps the connection.
pub open spec fn accepts_handshake(a: ActionSpec) -> bool {
    a matches ActionSpec::SendServerHello { hello: ServerHelloSpec::Success { .. }, close: None }
}

/// The action reads or handles an application stream.
pub open spec fn serves_application(a: ActionSpec) -> bool {
    ||| a is ReadWrapper
    ||| a is CheckStreamAuth
    ||| a is RunStreamHandler
    ||| a is RunRequestHandler
    ||| a is SendResponse
}

/// Phases reached only after the handshake succeeded.
pub open spec fn past_handshake(p: ConnectionPhase) -> bool {
    ||| p == ConnectionPhase::Serving
    ||| p == ConnectionPhase::AwaitingWrapper
    ||| p == ConnectionPhase::AwaitingStreamAuth
    ||| p == ConnectionPhase::AwaitingStreamHandler
    ||| p == ConnectionPhase::AwaitingRequestReply
    ||| p == ConnectionPhase::AwaitingResponseSent
}

/// The server accepts exactly the offered protocols it has a handler for: a
/// protocol is in the accepted list if and only if the client offered it and
/// the registry handles it.
pub proof fn lemma_accepted_are_offered_and_handled(supported: Seq<Seq<char>>, reg: RegistrySpec)
    ensures
        forall|p: Seq<char>|
            #[trigger] accepted_protocols(supported, reg).contains(p) <==> (supported.contains(p) && handles(reg, p)),
    decreases supported.len(),
{
    if supported.len() > 0 {
        let rest = supported.drop_last();
        lemma_accepted_are_offered_and_handled(rest, reg);
        assert forall|p: Seq<char>|
            #[trigger] accepted_protocols(supported, reg).contains(p) <==> (supported.contains(p) && handles(reg, p)) by {
            let acc = accepted_protocols(rest, reg);
            if supported.contains(p) && handles(reg, p) {
                if p == supported.last() {
                    assert(accepted_protocols(supported, reg) == acc.push(p));
                    assert(acc.push(p)[acc.len() as int] == p);
                } else {
                    let k = choose|k: int| 0 <= k < supported.len() && supported[k] == p;
                    assert(k < supported.len() - 1);
                    assert(rest[k] == p);
                    assert(acc.contains(p));
                    let m = choose|m: int| 0 <= m < acc.len() && acc[m] == p;
                    if handles(reg, supported.last()) {
                        assert(acc.push(supported.last())[m] == p);
                    }
                }
            }
            if accepted_protocols(supported, reg).contains(p) {
                let m = choose|m: int|
                    0 <= m < accepted_protocols(supported, reg).len() && accepted_protocols(supported, reg)[m] == p;
                if handles(reg, supported.last()) && m == acc.len() {
                    assert(supported[supported.len() - 1] == p);
                } else {
                    assert(acc[m] == p);
                    assert(acc.contains(p));
                    let k = choose|k: int| 0 <= k < rest.len() && rest[k] == p;
                    assert(supported[k] == p);
                }
            }
        }
    }
}

/// A peer refused by the connection hook, or one offering no handled
/// protocol, is answered with a failure and its connection ends; an accepted
/// peer is answered with the accepted protocols and served.
pub proof fn lemma_handshake_outcome(s: ConnectionSpec, reg: RegistrySpec, hello: ClientHelloSpec, allowed: bool)
    requires
        s.phase == ConnectionPhase::AwaitingClientHello,
    ensures
        ({
            let (next, a) = connection_step(
                s,
                reg,
                EventSpec::ClientHelloRead { hello: Some(hello), connection_allowed: allowed },
            );
            let accepted = accepted_protocols(hello.supported_protocols, reg);
            &&& !allowed ==> next.phase == ConnectionPhase::Closed && a == ActionSpec::SendServerHello {
                hello: ServerHelloSpec::Failure { code: HandshakeError::Unauthorized },
                close: Some(CloseReason::Unauthorized),
            }
            &&& allowed && accepted.len() == 0 ==> next.phase == ConnectionPhase::Closed && a
                == ActionSpec::SendServerHello {
                hello: ServerHelloSpec::Failure { code: HandshakeError::NoCommonProtocols },
                close: Some(CloseReason::NoCompatibleProtocols),
            }
            &&& allowed && accepted.len() > 0 ==> next.phase == ConnectionPhase::Serving && a
                == ActionSpec::SendServerHello { hello: success_hello(accepted), close: None }
        }),
{
}

/// A stream reaches a handler only after the authorization hook allowed it,
/// and only a handler registered for its protocol: the streaming handler when
/// there is one, otherwise the request handler.
pub proof fn lemma_dispatch_is_sound(s: ConnectionSpec, reg: RegistrySpec, e: EventSpec)
    ensures
        ({
            let (next, a) = connection_step(s, reg, e);
            &&& a matches ActionSpec::RunStreamHandler { protocol_json, data_json } ==> {
                &&& s.phase == ConnectionPhase::AwaitingStreamAuth
                &&& e == EventSpec::StreamAuthChecked { allowed: true }
                &&& protocol_json == s.pending
                &&& data_json == s.pending_data
                &&& reg.streams.contains(protocol_json)
            }
            &&& a matches ActionSpec::RunRequestHandler { protocol_json, data_json } ==> {
                &&& s.phase == ConnectionPhase::AwaitingStreamAuth
                &&& e == EventSpec::StreamAuthChecked { allowed: true }
                &&& protocol_json == s.pending
                &&& data_json == s.pending_data
                &&& reg.requests.contains(protocol_json)
                &&& !reg.streams.contains(protocol_json)
            }
        }),
{
}

/// Once a connection is closed, every further event leaves it closed and
/// asks for nothing.
pub proof fn lemma_closed_is_final(s: ConnectionSpec, reg: RegistrySpec, evs: Seq<EventSpec>)
    requires
        s.phase == ConnectionPhase::Closed,
    ensures
        run_connection(s, reg, evs).0 == s,
        run_connection(s, reg, evs).1.len() == evs.len(),
        forall|i: int| 0 <= i < evs.len() ==> #[trigger] run_connection(s, reg, evs).1[i] == ActionSpec::Ignore,
    decreases evs.len(),
{
    if evs.len() > 0 {
        lemma_closed_is_final(s, reg, evs.drop_last());
        let acts = run_connection(s, reg, evs.drop_last()).1;
        assert forall|i: int| 0 <= i < evs.len() implies #[trigger] run_connection(s, reg, evs).1[i]
            == ActionSpec::Ignore by {
            if i < evs.len() - 1 {
                assert(run_connection(s, reg, evs).1[i] == acts[i]);
            }
        }
    }
}

/// No application stream is read or handled before the server has sent a
/// successful handshake answer on that connection.
pub proof fn lemma_no_service_before_handshake(reg: RegistrySpec, evs: Seq<EventSpec>)
    ensures
        ({
            let (s, acts) = run_connection(initial_connection(), reg, evs);
            &&& acts.len() == evs.len()
            &&& past_handshake(s.phase) ==> exists|j: int| 0 <= j < acts.len() && #[trigger] accepts_handshake(acts[j])
            &&& forall|i: int|
                0 <= i < acts.len() && #[trigger] serves_application(acts[i]) ==> exists|j: int|
                    0 <= j < i && #[trigger] accepts_handshake(acts[j])
        }),
    decreases evs.len(),
{
    if evs.len() > 0 {
        let prev = evs.drop_last();
        lemma_no_service_before_handshake(reg, prev);
        let (mid, acts) = run_connection(initial_connection(), reg, prev);
        let (next, a) = connection_step(mid, reg, evs.last());
        let all = acts.push(a);
        assert(run_connection(initial_connection(), reg, evs) == (next, all));
        if past_handshake(next.phase) {
            if past_handshake(mid.phase) {
                let j = choose|j: int| 0 <= j < acts.len() && #[trigger] accepts_handshake(acts[j]);
                assert(all[j] == acts[j]);
            } else {
                assert(all[acts.len() as int] == a);
                assert(accepts_handshake(all[acts.len() as int]));
            }
        }
        assert forall|i: int| 0 <= i < all.len() && #[trigger] serves_application(all[i]) implies exists|j: int|
            0 <= j < i && #[trigger] accepts_handshake(all[j]) by {
            if i < acts.len() {
                assert(all[i] == acts[i]);
                let j = choose|j: int| 0 <= j < i && #[trigger] accepts_handshake(acts[j]);
                assert(all[j] == acts[j]);
            } else {
                assert(all[i] == a);
                assert(past_handshake(mid.phase));
                let j = choose|j: int| 0 <= j < acts.len() && #[trigger] accepts_handshake(acts[j]);
                assert(all[j] == acts[j]);
            }
        }
        let r = run_connection(initial_connection(), reg, evs);
        assert(r.0 == next && r.1 == all);
    } else {
        let r = run_connection(initial_connection(), reg, evs);
        assert(r.1.len() == 0);
        assert(!past_handshake(r.0.phase));
    }
}


/// Registering a handler for `p` makes `p` handled and keeps every protocol
/// handled before: afterwards the keys are exactly the earlier ones and `p`.
pub proof fn lemma_registered_is_handled(keys: Seq<Seq<char>>, p: Seq<char>)
    ensures
        add_key(keys, p).contains(p),
        forall|k: Seq<char>| #[trigger] add_key(keys, p).contains(k) <==> (keys.contains(k) || k == p),
{
    if !keys.contains(p) {
        let after = keys.push(p);
        assert(after[keys.len() as int] == p);
        assert forall|k: Seq<char>| #[trigger] after.contains(k) <==> (keys.contains(k) || k == p) by {
            if keys.contains(k) {
                let i = choose|i: int| 0 <= i < keys.len() && keys[i] == k;
                assert(after[i] == k);
            }
            if after.contains(k) && k != p {
                let i = choose|i: int| 0 <= i < after.len() && after[i] == k;
                assert(keys[i] == k);
            }
        }
    }
}

/// A protocol registered with a request or a streaming handler is accepted
/// whenever a client offers it, next to every protocol accepted before.
pub proof fn lemma_registered_protocol_is_accepted(
    reg: RegistrySpec,
    p: Seq<char>,
    as_stream: bool,
    supported: Seq<Seq<char>>,
)
    requires
        supported.contains(p),
    ensures
        ({
            let after = if as_stream {
                RegistrySpec { streams: add_key(reg.streams, p), ..reg }
            } else {
                RegistrySpec { requests: add_key(reg.requests, p), ..reg }
            };
            &&& accepted_protocols(supported, after).contains(p)
            &&& forall|q: Seq<char>|
                #[trigger] accepted_protocols(supported, reg).contains(q) ==> accepted_protocols(
                    supported,
                    after,
                ).contains(q)
        }),
{
    let after = if as_stream {
        RegistrySpec { streams: add_key(reg.streams, p), ..reg }
    } else {
        RegistrySpec { requests: add_key(reg.requests, p), ..reg }
    };
    lemma_registered_is_handled(reg.streams, p);
    lemma_registered_is_handled(reg.requests, p);
    lemma_accepted_are_offered_and_handled(supported, reg);
    lemma_accepted_are_offered_and_handled(supported, after);
    assert(handles(after, p));
    assert forall|q: Seq<char>| #[trigger] accepted_protocols(supported, reg).contains(q) implies accepted_protocols(
        supported,
        after,
    ).contains(q) by {
        assert(supported.contains(q) && handles(reg, q));
        assert(handles(after, q));
    }
}

/// Every way an application stream ends leaves the connection serving, ready
/// for the next application stream: a refused stream (answered
/// "Authorization denied" and finished), a wrapper that cannot be read, a
/// protocol with no handler, a streaming handler that returned, and a
/// delivered response.  The next application stream is then read.
pub proof fn lemma_stream_end_keeps_serving(s: ConnectionSpec, reg: RegistrySpec, error: Seq<char>)
    ensures
        s.phase == ConnectionPhase::AwaitingStreamAuth ==> connection_step(
            s,
            reg,
            EventSpec::StreamAuthChecked { allowed: false },
        ) == (
            ConnectionSpec { phase: ConnectionPhase::Serving, ..s },
            ActionSpec::ReplyLine { line: "Authorization denied\n"@, finish: true },
        ),
        s.phase == ConnectionPhase::AwaitingStreamAuth && !reg.streams.contains(s.pending)
            && !reg.requests.contains(s.pending) ==> connection_step(
            s,
            reg,
            EventSpec::StreamAuthChecked { allowed: true },
        ).0.phase == ConnectionPhase::Serving,
        s.phase == ConnectionPhase::AwaitingWrapper ==> connection_step(
            s,
            reg,
            EventSpec::WrapperInvalid { error },
        ).0.phase == ConnectionPhase::Serving,
        s.phase == ConnectionPhase::AwaitingStreamHandler ==> connection_step(s, reg, EventSpec::HandlerFinished)
            == (ConnectionSpec { phase: ConnectionPhase::Serving, ..s }, ActionSpec::AcceptNextStream),
        s.phase == ConnectionPhase::AwaitingResponseSent ==> connection_step(
            s,
            reg,
            EventSpec::ResponseSent { delivered: true },
        ) == (ConnectionSpec { phase: ConnectionPhase::Serving, ..s }, ActionSpec::FinishStream),
        s.phase == ConnectionPhase::Serving ==> connection_step(
            s,
            reg,
            EventSpec::StreamAccepted { protocol: ProtocolSpec::Generic(APP_PROTOCOL_JSON@) },
        ) == (ConnectionSpec { phase: ConnectionPhase::AwaitingWrapper, ..s }, ActionSpec::ReadWrapper),
{
}

} // verus!
