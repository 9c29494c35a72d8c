//! Client side of a call or streaming connection.
//!
//! A client opens a handshake stream, waits for the acknowledgement, sends
//! its hello offering one protocol, and checks the server's answer: a refusal
//! or an answer that does not accept the protocol ends the attempt.  It then
//! opens an application stream, waits for its acknowledgement and sends one
//! wrapper request line `{"data":<data>,"protocol":<protocol>}`.  A call then
//! reads one response line and decodes it as the success type if it can, else
//! as the error type; a streaming connection hands the streams to the caller.
//!
//! [`ClientCall`] holds these decisions; the caller performs the I/O that each
//! [`ClientAction`] asks for and reports the outcome as a [`ClientEvent`].

use vstd::prelude::*;
use crate::handshake::{
    ClientHello, ClientHelloSpec, ServerHello, ServerHelloSpec, handshake_error_name,
    CLIENT_NAME, CLIENT_VERSION,
};
use crate::net::protocol::ACK;
use crate::server::builder::{handles, handshake_reply, RegistrySpec};
use crate::text::{concat, contains_text, owned, str_eq};

verus! {

/// Which step of a client attempt failed.
#[derive(Clone, Copy, Debug, PartialEq, Eq, Structural)]
pub enum ClientErrorKind {
    Endpoint,
    Connection,
    Stream,
    Serialization,
    Send,
    Receive,
    Deserialization,
}

/// Errors of request/response calls.
#[derive(Debug)]
pub enum CallError {
    Connection { message: String },
    RequestResponse { message: String },
    Serialization { message: String },
    Endpoint { message: String },
    Stream { message: String },
    Send { message: String },
    Receive { message: String },
    Deserialization { message: String },
}

/// Errors of streaming connections.
#[derive(Debug)]
pub enum ConnectionError {
    Endpoint { message: String },
    Connection { message: String },
    Stream { message: String },
    Serialization { message: String },
    Send { message: String },
    Receive { message: String },
}

/// A failed client attempt: the failing step and a description.
#[derive(Debug)]
pub struct ClientFailure {
    pub kind: ClientErrorKind,
    pub message: String,
}

/// The mathematical value of a [`ClientFailure`].
pub struct FailureSpec {
    pub kind: ClientErrorKind,
    pub message: Seq<char>,
}

impl View for ClientFailure {
    type V = FailureSpec;

    open spec fn view(&self) -> FailureSpec {
        FailureSpec { kind: self.kind, message: self.message@ }
    }
}

impl ClientFailure {
    /// The call error for this failure.
    pub fn into_call_error(self) -> (e: CallError)
        ensures
            match e {
                CallError::Endpoint { message } => self.kind == ClientErrorKind::Endpoint && message@ == self.message@,
                CallError::Connection { message } => self.kind == ClientErrorKind::Connection && message@
                    == self.message@,
                CallError::Stream { message } => self.kind == ClientErrorKind::Stream && message@ == self.message@,
                CallError::Serialization { message } => self.kind == ClientErrorKind::Serialization && message@
                    == self.message@,
                CallError::Send { message } => self.kind == ClientErrorKind::Send && message@ == self.message@,
                CallError::Receive { message } => self.kind == ClientErrorKind::Receive && message@ == self.message@,
                CallError::Deserialization { message } => self.kind == ClientErrorKind::Deserialization && message@
                    == self.message@,
                CallError::RequestResponse { .. } => false,
            },
    {
        let message = self.message;
        match self.kind {
            ClientErrorKind::Endpoint => CallError::Endpoint { message },
            ClientErrorKind::Connection => CallError::Connection { message },
            ClientErrorKind::Stream => CallError::Stream { message },
            ClientErrorKind::Serialization => CallError::Serialization { message },
            ClientErrorKind::Send => CallError::Send { message },
            ClientErrorKind::Receive => CallError::Receive { message },
            ClientErrorKind::Deserialization => CallError::Deserialization { message },
        }
    }

    /// The connection error for this failure (a streaming connection never
    /// decodes a response, so it has no decoding failure).
    pub fn into_connection_error(self) -> (e: ConnectionError)
        requires
            self.kind != ClientErrorKind::Deserialization,
        ensures
            match e {
                ConnectionError::Endpoint { message } => self.kind == ClientErrorKind::Endpoint && message@
                    == self.message@,
                ConnectionError::Connection { message } => self.kind == ClientErrorKind::Connection && message@
                    == self.message@,
                ConnectionError::Stream { message } => self.kind == ClientErrorKind::Stream && message@
                    == self.message@,
                ConnectionError::Serialization { message } => self.kind == ClientErrorKind::Serialization
                    && message@ == self.message@,
                ConnectionError::Send { message } => self.kind == ClientErrorKind::Send && message@ == self.message@,
                ConnectionError::Receive { message } => self.kind == ClientErrorKind::Receive && message@
                    == self.message@,
            },
    {
        let message = self.message;
        match self.kind {
            ClientErrorKind::Endpoint => ConnectionError::Endpoint { message },
            ClientErrorKind::Connection => ConnectionError::Connection { message },
            ClientErrorKind::Stream => ConnectionError::Stream { message },
            ClientErrorKind::Serialization => ConnectionError::Serialization { message },
            ClientErrorKind::Send => ConnectionError::Send { message },
            _ => ConnectionError::Receive { message },
        }
    }
}

/// Whether the attempt is a request/response call or a streaming connection.
#[derive(Clone, Copy, Debug, PartialEq, Eq, Structural)]
pub enum ClientMode {
    Call,
    Connect,
}

/// Where a client attempt stands.
#[derive(Clone, Copy, Debug, PartialEq, Eq, Structural)]
pub enum ClientPhase {
    /// The handshake stream was opened and its header sent; waiting for the acknowledgement.
    AwaitingHandshakeAck,
    /// The hello was sent; waiting for the server's answer.
    AwaitingServerHello,
    /// The application stream was opened and its header sent; waiting for the acknowledgement.
    AwaitingAppAck,
    /// The request was sent; waiting for the response line (calls only).
    AwaitingResponse,
    /// The attempt succeeded.
    Done,
    /// The attempt failed.
    Failed,
}

/// One client attempt.
pub struct ClientCall {
    mode: ClientMode,
    phase: ClientPhase,
    protocol_json: String,
    data_json: String,
}

/// The mathematical value of a [`ClientCall`].
pub struct ClientCallSpec {
    pub mode: ClientMode,
    pub phase: ClientPhase,
    pub protocol: Seq<char>,
    pub data: Seq<char>,
}

impl View for ClientCall {
    type V = ClientCallSpec;

    closed spec fn view(&self) -> ClientCallSpec {
        ClientCallSpec {
            mode: self.mode,
            phase: self.phase,
            protocol: self.protocol_json@,
            data: self.data_json@,
        }
    }
}

/// What happened since the last action.
pub enum ClientEvent {
    /// An I/O step failed.
    StepFailed { kind: ClientErrorKind, message: String },
    /// An acknowledgement line was read.
    AckRead { line: String },
    /// The server's hello was read.
    ServerHelloRead { hello: ServerHello },
    /// The response line was read, with whether it decodes as the success
    /// type and whether it decodes as the error type.
    ResponseRead { line: String, decodes_as_output: bool, decodes_as_error: bool },
}

/// The mathematical value of a [`ClientEvent`].
pub enum ClientEventSpec {
    StepFailed { kind: ClientErrorKind, message: Seq<char> },
    AckRead { line: Seq<char> },
    ServerHelloRead { hello: ServerHelloSpec },
    ResponseRead { line: Seq<char>, decodes_as_output: bool, decodes_as_error: bool },
}

impl View for ClientEvent {
    type V = ClientEventSpec;

    open spec fn view(&self) -> ClientEventSpec {
        match self {
            ClientEvent::StepFailed { kind, message } => ClientEventSpec::StepFailed { kind: *kind, message: message@ },
            ClientEvent::AckRead { line } => ClientEventSpec::AckRead { line: line@ },
            ClientEvent::ServerHelloRead { hello } => ClientEventSpec::ServerHelloRead { hello: hello@ },
            ClientEvent::ResponseRead { line, decodes_as_output, decodes_as_error } => ClientEventSpec::ResponseRead {
                line: line@,
                decodes_as_output: *decodes_as_output,
                decodes_as_error: *decodes_as_error,
            },
        }
    }
}

/// What the caller must do next.
pub enum ClientAction {
    /// Send `hello` as a line on the handshake stream, then read the server's answer.
    SendClientHello { hello: ClientHello },
    /// Finish the handshake stream, open the application stream, send its
    /// header line, then read the acknowledgement.
    OpenAppStream,
    /// Send `line` followed by a newline on the application stream; then read
    /// the response line if `await_response`, else hand the streams over.
    SendRequest { line: String, await_response: bool },
    /// The call succeeded with the success value encoded in `line`.
    DeliverOutput { line: String },
    /// The call succeeded with the application error encoded in `line`.
    DeliverAppError { line: String },
    /// The attempt failed.
    Fail { failure: ClientFailure },
    /// Nothing to do: the event does not belong to the current phase.
    Ignore,
}

/// The mathematical value of a [`ClientAction`].
pub enum ClientActionSpec {
    SendClientHello { hello: ClientHelloSpec },
    OpenAppStream,
    SendRequest { line: Seq<char>, await_response: bool },
    DeliverOutput { line: Seq<char> },
    DeliverAppError { line: Seq<char> },
    Fail { failure: FailureSpec },
    Ignore,
}

impl View for ClientAction {
    type V = ClientActionSpec;

    open spec fn view(&self) -> ClientActionSpec {
        match self {
            ClientAction::SendClientHello { hello } => ClientActionSpec::SendClientHello { hello: hello@ },
            ClientAction::OpenAppStream => ClientActionSpec::OpenAppStream,
            ClientAction::SendRequest { line, await_response } => ClientActionSpec::SendRequest {
                line: line@,
                await_response: *await_response,
            },
            ClientAction::DeliverOutput { line } => ClientActionSpec::DeliverOutput { line: line@ },
            ClientAction::DeliverAppError { line } => ClientActionSpec::DeliverAppError { line: line@ },
            ClientAction::Fail { failure } => ClientActionSpec::Fail { failure: failure@ },
            ClientAction::Ignore => ClientActionSpec::Ignore,
        }
    }
}

/// The wrapper request line: `{"data":<data>,"protocol":<protocol>}`, both given as JSON text.
pub open spec fn wrapper_request_text(protocol: Seq<char>, data: Seq<char>) -> Seq<char> {
    "{\"data\":"@ + data + ",\"protocol\":"@ + protocol + "}"@
}

/// The hello a client sends offering `protocol`.
pub open spec fn client_hello_for(protocol: Seq<char>) -> ClientHelloSpec {
    ClientHelloSpec {
        client_name: CLIENT_NAME@,
        client_version: CLIENT_VERSION@,
        supported_protocols: seq![protocol],
        auth_token: None,
    }
}

/// A failure of kind `kind` with message `message`.
pub open spec fn failure(kind: ClientErrorKind, message: Seq<char>) -> ClientActionSpec {
    ClientActionSpec::Fail { failure: FailureSpec { kind, message } }
}

/// The state `c` with phase `phase`.
pub open spec fn at_phase(c: ClientCallSpec, phase: ClientPhase) -> ClientCallSpec {
    ClientCallSpec { phase, ..c }
}

/// Whether the attempt is over.
pub open spec fn finished(p: ClientPhase) -> bool {
    p == ClientPhase::Done || p == ClientPhase::Failed
}

/// One step of a client attempt: the next state and the action asked of the caller.
pub open spec fn client_step(c: ClientCallSpec, e: ClientEventSpec) -> (ClientCallSpec, ClientActionSpec) {
    if finished(c.phase) {
        (c, ClientActionSpec::Ignore)
    } else {
        match e {
            ClientEventSpec::StepFailed { kind, message } => (at_phase(c, ClientPhase::Failed), failure(kind, message)),
            ClientEventSpec::AckRead { line } => if c.phase == ClientPhase::AwaitingHandshakeAck {
                if line == ACK@ {
                    (
                        at_phase(c, ClientPhase::AwaitingServerHello),
                        ClientActionSpec::SendClientHello { hello: client_hello_for(c.protocol) },
                    )
                } else {
                    (
                        at_phase(c, ClientPhase::Failed),
                        failure(ClientErrorKind::Receive, "Expected ACK, got: "@ + line),
                    )
                }
            } else if c.phase == ClientPhase::AwaitingAppAck {
                if line == ACK@ {
                    if c.mode == ClientMode::Call {
                        (
                            at_phase(c, ClientPhase::AwaitingResponse),
                            ClientActionSpec::SendRequest {
                                line: wrapper_request_text(c.protocol, c.data),
                                await_response: true,
                            },
                        )
                    } else {
                        (
                            at_phase(c, ClientPhase::Done),
                            ClientActionSpec::SendRequest {
                                line: wrapper_request_text(c.protocol, c.data),
                                await_response: false,
                            },
                        )
                    }
                } else {
                    (
                        at_phase(c, ClientPhase::Failed),
                        failure(ClientErrorKind::Receive, "Expected ACK for app protocol, got: "@ + line),
                    )
                }
            } else {
                (c, ClientActionSpec::Ignore)
            },
            ClientEventSpec::ServerHelloRead { hello } => if c.phase == ClientPhase::AwaitingServerHello {
                match hello {
                    ServerHelloSpec::Failure { code } => (
                        at_phase(c, ClientPhase::Failed),
                        failure(ClientErrorKind::Receive, "Server rejected handshake: "@ + handshake_error_name(code)),
                    ),
                    ServerHelloSpec::Success { accepted_protocols, .. } => if accepted_protocols.contains(c.protocol) {
                        (at_phase(c, ClientPhase::AwaitingAppAck), ClientActionSpec::OpenAppStream)
                    } else {
                        (
                            at_phase(c, ClientPhase::Failed),
                            failure(ClientErrorKind::Receive, "Server doesn't support requested protocol"@),
                        )
                    },
                }
            } else {
                (c, ClientActionSpec::Ignore)
            },
            ClientEventSpec::ResponseRead { line, decodes_as_output, decodes_as_error } => if c.phase
                == ClientPhase::AwaitingResponse {
                if decodes_as_output {
                    (at_phase(c, ClientPhase::Done), ClientActionSpec::DeliverOutput { line })
                } else if decodes_as_error {
                    (at_phase(c, ClientPhase::Done), ClientActionSpec::DeliverAppError { line })
                } else {
                    (
                        at_phase(c, ClientPhase::Failed),
                        failure(
                            ClientErrorKind::Deserialization,
                            "Response doesn't match expected OUTPUT or ERROR types: "@ + line,
                        ),
                    )
                }
            } else {
                (c, ClientActionSpec::Ignore)
            },
        }
    }
}

/// The wrapper request line for `protocol_json` and `data_json`.
pub fn wrapper_request_line(protocol_json: &str, data_json: &str) -> (s: String)
    ensures
        s@ == wrapper_request_text(protocol_json@, data_json@),
{
    let a = concat("{\"data\":", data_json);
    let b = concat(a.as_str(), ",\"protocol\":");
    let c = concat(b.as_str(), protocol_json);
    let d = concat(c.as_str(), "}");
    assert(d@ =~= wrapper_request_text(protocol_json@, data_json@));
    d
}

/// The state of an attempt that has just opened its handshake stream and sent its header.
pub open spec fn started(mode: ClientMode, protocol: Seq<char>, data: Seq<char>) -> ClientCallSpec {
    ClientCallSpec { mode, phase: ClientPhase::AwaitingHandshakeAck, protocol, data }
}

impl ClientCall {
    /// An attempt offering protocol `protocol_json` and sending `data_json`,
    /// whose handshake stream has been opened and header sent.
    pub fn new(mode: ClientMode, protocol_json: String, data_json: String) -> (c: Self)
        ensures
            c@ == started(mode, protocol_json@, data_json@),
    {
        ClientCall { mode, phase: ClientPhase::AwaitingHandshakeAck, protocol_json, data_json }
    }

    /// The current phase.
    pub fn phase(&self) -> (p: ClientPhase)
        ensures
            p == self@.phase,
    {
        self.phase
    }

    /// Feeds `event` to the attempt and returns the action asked of the caller.
    pub fn step(&mut self, event: ClientEvent) -> (a: ClientAction)
        ensures
            (final(self)@, a@) == client_step(old(self)@, event@),
    {
        if self.phase == ClientPhase::Done || self.phase == ClientPhase::Failed {
            return ClientAction::Ignore;
        }
        match event {
            ClientEvent::StepFailed { kind, message } => {
                self.phase = ClientPhase::Failed;
                ClientAction::Fail { failure: ClientFailure { kind, message } }
            },
            ClientEvent::AckRead { line } => {
                if self.phase == ClientPhase::AwaitingHandshakeAck {
                    if str_eq(line.as_str(), ACK) {
                        self.phase = ClientPhase::AwaitingServerHello;
                        let hello = ClientHello::new(CLIENT_NAME, CLIENT_VERSION).with_protocol(
                            Some(self.protocol_json.clone()),
                        );
                        assert(hello@.supported_protocols =~= seq![self.protocol_json@]);
                        ClientAction::SendClientHello { hello }
                    } else {
                        self.phase = ClientPhase::Failed;
                        let message = concat("Expected ACK, got: ", line.as_str());
                        ClientAction::Fail { failure: ClientFailure { kind: ClientErrorKind::Receive, message } }
                    }
                } else if self.phase == ClientPhase::AwaitingAppAck {
                    if str_eq(line.as_str(), ACK) {
                        let request = wrapper_request_line(self.protocol_json.as_str(), self.data_json.as_str());
                        if self.mode == ClientMode::Call {
                            self.phase = ClientPhase::AwaitingResponse;
                            ClientAction::SendRequest { line: request, await_response: true }
                        } else {
                            self.phase = ClientPhase::Done;
                            ClientAction::SendRequest { line: request, await_response: false }
                        }
                    } else {
                        self.phase = ClientPhase::Failed;
                        let message = concat("Expected ACK for app protocol, got: ", line.as_str());
                        ClientAction::Fail { failure: ClientFailure { kind: ClientErrorKind::Receive, message } }
                    }
                } else {
                    ClientAction::Ignore
                }
            },
            ClientEvent::ServerHelloRead { hello } => {
                if self.phase == ClientPhase::AwaitingServerHello {
                    match hello {
                        ServerHello::Failure { code } => {
                            self.phase = ClientPhase::Failed;
                            let name = code.name();
                            let message = concat("Server rejected handshake: ", name.as_str());
                            ClientAction::Fail { failure: ClientFailure { kind: ClientErrorKind::Receive, message } }
                        },
                        ServerHello::Success { accepted_protocols, .. } => {
                            if contains_text(&accepted_protocols, self.protocol_json.as_str()) {
                                self.phase = ClientPhase::AwaitingAppAck;
                                ClientAction::OpenAppStream
                            } else {
                                self.phase = ClientPhase::Failed;
                                let message = owned("Server doesn't support requested protocol");
                                ClientAction::Fail {
                                    failure: ClientFailure { kind: ClientErrorKind::Receive, message },
                                }
                            }
                        },
                    }
                } else {
                    ClientAction::Ignore
                }
            },
            ClientEvent::ResponseRead { line, decodes_as_output, decodes_as_error } => {
                if self.phase == ClientPhase::AwaitingResponse {
                    if decodes_as_output {
                        self.phase = ClientPhase::Done;
                        ClientAction::DeliverOutput { line }
                    } else if decodes_as_error {
                        self.phase = ClientPhase::Done;
                        ClientAction::DeliverAppError { line }
                    } else {
                        self.phase = ClientPhase::Failed;
                        let message = concat(
                            "Response doesn't match expected OUTPUT or ERROR types: ",
                            line.as_str(),
                        );
                        ClientAction::Fail {
                            failure: ClientFailure { kind: ClientErrorKind::Deserialization, message },
                        }
                    }
                } else {
                    ClientAction::Ignore
                }
            },
        }
    }
}


// ---------------------------------------------------------------- laws

/// The state and the actions after feeding `evs` in order, starting from `c`.
pub open spec fn run_client(c: ClientCallSpec, evs: Seq<ClientEventSpec>) -> (ClientCallSpec, Seq<ClientActionSpec>)
    decreases evs.len(),
{
    if evs.len() == 0 {
        (c, Seq::empty())
    } else {
        let (mid, acts) = run_client(c, evs.drop_last());
        let (next, a) = client_step(mid, evs.last());
        (next, acts.push(a))
    }
}

/// The event is a server answer that accepts `protocol`.
pub open spec fn accepts(e: ClientEventSpec, protocol: Seq<char>) -> bool {
    e matches ClientEventSpec::ServerHelloRead { hello: ServerHelloSpec::Success { accepted_protocols, .. } }
        && accepted_protocols.contains(protocol)
}

/// Phases reached only after the server accepted the protocol.
pub open spec fn past_acceptance(p: ClientPhase) -> bool {
    p == ClientPhase::AwaitingAppAck || p == ClientPhase::AwaitingResponse || p == ClientPhase::Done
}

/// Once an attempt has succeeded or failed, further events change nothing
/// and ask for nothing.
pub proof fn lemma_finished_is_final(c: ClientCallSpec, evs: Seq<ClientEventSpec>)
    requires
        finished(c.phase),
    ensures
        run_client(c, evs).0 == c,
        run_client(c, evs).1.len() == evs.len(),
        forall|i: int| 0 <= i < evs.len() ==> #[trigger] run_client(c, evs).1[i] == ClientActionSpec::Ignore,
    decreases evs.len(),
{
    if evs.len() > 0 {
        lemma_finished_is_final(c, evs.drop_last());
        let acts = run_client(c, evs.drop_last()).1;
        assert forall|i: int| 0 <= i < evs.len() implies #[trigger] run_client(c, evs).1[i]
            == ClientActionSpec::Ignore by {
            if i < evs.len() - 1 {
                assert(run_client(c, evs).1[i] == acts[i]);
            }
        }
    }
}

/// A client sends its request at most once, only after the server's answer
/// accepted the offered protocol, and the request is the wrapper of that
/// protocol and the attempt's data.
pub proof fn lemma_request_only_after_acceptance(
    mode: ClientMode,
    protocol: Seq<char>,
    data: Seq<char>,
    evs: Seq<ClientEventSpec>,
)
    ensures
        ({
            let (c, acts) = run_client(started(mode, protocol, data), evs);
            &&& acts.len() == evs.len()
            &&& c.protocol == protocol && c.data == data && c.mode == mode
            &&& past_acceptance(c.phase) ==> exists|j: int| 0 <= j < evs.len() && #[trigger] accepts(evs[j], protocol)
            &&& (exists|k: int| 0 <= k < acts.len() && #[trigger] acts[k] is SendRequest) ==> (c.phase
                == ClientPhase::AwaitingResponse || c.phase == ClientPhase::Done || c.phase == ClientPhase::Failed)
            &&& forall|i: int| 0 <= i < acts.len() && #[trigger] acts[i] is SendRequest ==> {
                &&& acts[i] == ClientActionSpec::SendRequest {
                    line: wrapper_request_text(protocol, data),
                    await_response: mode == ClientMode::Call,
                }
                &&& exists|j: int| 0 <= j < i && #[trigger] accepts(evs[j], protocol)
                &&& forall|k: int| 0 <= k < acts.len() && k != i ==> !(#[trigger] acts[k] is SendRequest)
            }
        }),
    decreases evs.len(),
{
    let init = started(mode, protocol, data);
    if evs.len() == 0 {
        let r = run_client(init, evs);
        assert(r.1.len() == 0);
    } else {
        let prev = evs.drop_last();
        lemma_request_only_after_acceptance(mode, protocol, data, prev);
        let (mid, acts) = run_client(init, prev);
        let e = evs.last();
        let (next, a) = client_step(mid, e);
        let all = acts.push(a);
        assert(run_client(init, evs) == (next, all));
        assert forall|j: int| 0 <= j < prev.len() implies evs[j] == prev[j] by {}
        if past_acceptance(next.phase) {
            if past_acceptance(mid.phase) {
                let j = choose|j: int| 0 <= j < prev.len() && #[trigger] accepts(prev[j], protocol);
                assert(accepts(evs[j], protocol));
            } else {
                assert(evs[evs.len() - 1] == e);
                assert(accepts(evs[evs.len() - 1], protocol));
            }
        }
        if exists|k: int| 0 <= k < all.len() && #[trigger] all[k] is SendRequest {
            let k = choose|k: int| 0 <= k < all.len() && #[trigger] all[k] is SendRequest;
            if k < acts.len() {
                assert(acts[k] is SendRequest);
            }
        }
        assert forall|i: int| 0 <= i < all.len() && #[trigger] all[i] is SendRequest implies {
            &&& all[i] == ClientActionSpec::SendRequest {
                line: wrapper_request_text(protocol, data),
                await_response: mode == ClientMode::Call,
            }
            &&& exists|j: int| 0 <= j < i && #[trigger] accepts(evs[j], protocol)
            &&& forall|k: int| 0 <= k < all.len() && k != i ==> !(#[trigger] all[k] is SendRequest)
        } by {
            if i < acts.len() {
                assert(all[i] == acts[i]);
                let j = choose|j: int| 0 <= j < i && #[trigger] accepts(prev[j], protocol);
                assert(accepts(evs[j], protocol));
                assert forall|k: int| 0 <= k < all.len() && k != i implies !(#[trigger] all[k] is SendRequest) by {
                    if k < acts.len() {
                        assert(all[k] == acts[k]);
                    } else {
                        assert(acts[i] is SendRequest);
                        assert(all[k] == a);
                    }
                }
            } else {
                assert(all[i] == a);
                assert(mid.phase == ClientPhase::AwaitingAppAck);
                let j = choose|j: int| 0 <= j < prev.len() && #[trigger] accepts(prev[j], protocol);
                assert(accepts(evs[j], protocol));
                assert forall|k: int| 0 <= k < all.len() && k != i implies !(#[trigger] all[k] is SendRequest) by {
                    assert(all[k] == acts[k]);
                }
            }
        }
    }
}

/// A response is delivered as the success value whenever it decodes as the
/// success type, as the application error only when it does not but decodes
/// as the error type, and is a decoding failure otherwise.
pub proof fn lemma_response_classification(c: ClientCallSpec, line: Seq<char>, as_output: bool, as_error: bool)
    requires
        c.phase == ClientPhase::AwaitingResponse,
    ensures
        ({
            let (next, a) = client_step(
                c,
                ClientEventSpec::ResponseRead { line, decodes_as_output: as_output, decodes_as_error: as_error },
            );
            &&& as_output ==> a == ClientActionSpec::DeliverOutput { line } && next.phase == ClientPhase::Done
            &&& !as_output && as_error ==> a == ClientActionSpec::DeliverAppError { line } && next.phase
                == ClientPhase::Done
            &&& !as_output && !as_error ==> a == failure(
                ClientErrorKind::Deserialization,
                "Response doesn't match expected OUTPUT or ERROR types: "@ + line,
            ) && next.phase == ClientPhase::Failed
        }),
{
}


/// Client and server agree on the handshake: a client that offers its
/// protocol to a server goes on to open its application stream exactly when
/// the server allows the connection and has a handler for that protocol;
/// otherwise the attempt fails.
pub proof fn lemma_client_proceeds_iff_server_handles(c: ClientCallSpec, reg: RegistrySpec, allowed: bool)
    requires
        c.phase == ClientPhase::AwaitingServerHello,
    ensures
        ({
            let reply = handshake_reply(client_hello_for(c.protocol).supported_protocols, reg, allowed);
            let (next, a) = client_step(c, ClientEventSpec::ServerHelloRead { hello: reply });
            &&& (a == ClientActionSpec::OpenAppStream) <==> (allowed && handles(reg, c.protocol))
            &&& (allowed && handles(reg, c.protocol)) ==> next.phase == ClientPhase::AwaitingAppAck
            &&& !(allowed && handles(reg, c.protocol)) ==> next.phase == ClientPhase::Failed
        }),
{
    let offered = seq![c.protocol];
    reveal_with_fuel(crate::server::builder::accepted_protocols, 2);
    assert(offered.drop_last() =~= Seq::<Seq<char>>::empty());
    assert(offered.last() == c.protocol);
    if handles(reg, c.protocol) {
        assert(crate::server::builder::accepted_protocols(offered, reg) =~= seq![c.protocol]);
        assert(seq![c.protocol][0] == c.protocol);
    } else {
        assert(crate::server::builder::accepted_protocols(offered, reg) =~= Seq::<Seq<char>>::empty());
    }
}

/// A failed I/O step ends an unfinished attempt, whatever it was waiting
/// for: the failure is reported with its kind and message and the attempt
/// is over.
pub proof fn lemma_step_failure_ends_attempt(c: ClientCallSpec, kind: ClientErrorKind, message: Seq<char>)
    requires
        c.phase != ClientPhase::Done,
        c.phase != ClientPhase::Failed,
    ensures
        client_step(c, ClientEventSpec::StepFailed { kind, message }) == (
            ClientCallSpec { phase: ClientPhase::Failed, ..c },
            ClientActionSpec::Fail { failure: FailureSpec { kind, message } },
        ),
{
}

/// Every event read while waiting for a call's response ends the attempt:
/// a response line delivers the value or the application error or fails to
/// decode, and a failed read fails the call; nothing leaves the call waiting.
pub proof fn lemma_response_wait_ends(c: ClientCallSpec, e: ClientEventSpec)
    requires
        c.phase == ClientPhase::AwaitingResponse,
        e is StepFailed || e is ResponseRead,
    ensures
        client_step(c, e).0.phase == ClientPhase::Done || client_step(c, e).0.phase == ClientPhase::Failed,
        client_step(c, e).1 !is Ignore,
{
}

} // verus!
