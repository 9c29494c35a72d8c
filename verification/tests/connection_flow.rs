use fastn_p2p::client::{
    wrapper_request_line, ClientAction, ClientCall, ClientErrorKind, ClientEvent, ClientFailure, ClientMode, ClientPhase,
    CallError, ConnectionError,
};
use fastn_p2p::handshake::{
    ClientHello, HandshakeError, ServerHello, APP_PROTOCOL_JSON, HANDSHAKE_PROTOCOL, HANDSHAKE_PROTOCOL_JSON,
};
use fastn_p2p::net::protocol::{Protocol, ACK};
use fastn_p2p::server::builder::{
    accept_protocols, reply_to_hello, request_reply_line, CloseReason, ConnectionAction, ConnectionEvent, ConnectionPhase, HandlerRegistry,
    ServerConnection,
};

const ECHO: &str = "\"Echo\"";
const FILES: &str = "\"Files\"";

fn registry() -> HandlerRegistry {
    let mut r = HandlerRegistry::new();
    r.register_request(ECHO.to_string());
    r.register_stream(FILES.to_string());
    r
}

fn hello(protocols: &[&str]) -> ClientHello {
    let mut h = ClientHello::new("client", "1.0");
    for p in protocols {
        h = h.with_protocol(Some(p.to_string()));
    }
    h
}

fn handshake_stream() -> ConnectionEvent {
    ConnectionEvent::StreamAccepted { protocol: Protocol::Generic(HANDSHAKE_PROTOCOL_JSON.to_string()) }
}

fn app_stream() -> ConnectionEvent {
    ConnectionEvent::StreamAccepted { protocol: Protocol::Generic(APP_PROTOCOL_JSON.to_string()) }
}

fn accepted(h: &ServerHello) -> Vec<String> {
    match h {
        ServerHello::Success { accepted_protocols, server_name, server_version } => {
            assert_eq!(server_name, "fastn-p2p-server");
            assert_eq!(server_version, "0.1.0");
            accepted_protocols.clone()
        }
        ServerHello::Failure { .. } => panic!("expected success"),
    }
}

#[test]
fn handshake_constants() {
    assert_eq!(HANDSHAKE_PROTOCOL, "fastn-p2p-handshake-v1");
    assert_eq!(HANDSHAKE_PROTOCOL_JSON, "\"fastn-p2p-handshake-v1\"");
    assert_eq!(APP_PROTOCOL_JSON, "\"fastn-p2p\"");
    assert_eq!(HandshakeError::NoCommonProtocols.name(), "NoCommonProtocols");
}

#[test]
fn server_accepts_only_handled_protocols_in_client_order() {
    let reg = registry();
    let offered: Vec<String> = [FILES, "\"Chat\"", ECHO].iter().map(|s| s.to_string()).collect();
    assert_eq!(accept_protocols(&offered, &reg), vec![FILES.to_string(), ECHO.to_string()]);
    let reply = reply_to_hello(&hello(&[FILES, "\"Chat\"", ECHO]), &reg, true);
    assert_eq!(accepted(&reply), vec![FILES.to_string(), ECHO.to_string()]);
}

#[test]
fn server_refuses_without_common_protocol_or_permission() {
    let reg = registry();
    let reply = reply_to_hello(&hello(&["\"Chat\""]), &reg, true);
    assert!(matches!(reply, ServerHello::Failure { code: HandshakeError::NoCommonProtocols }));
    let reply = reply_to_hello(&hello(&[ECHO]), &reg, false);
    assert!(matches!(reply, ServerHello::Failure { code: HandshakeError::Unauthorized }));
    assert!(reply.is_failure());
}

#[test]
fn connection_must_start_with_handshake() {
    let reg = registry();
    let mut c = ServerConnection::new();
    let a = c.step(&reg, app_stream());
    assert!(matches!(a, ConnectionAction::Close { reason: CloseReason::HandshakeRequired }));
    assert_eq!(c.phase(), ConnectionPhase::Closed);
    assert!(matches!(c.step(&reg, handshake_stream()), ConnectionAction::Ignore));
    assert_eq!(CloseReason::HandshakeRequired.text(), "Handshake required");
}

#[test]
fn unreadable_hello_closes() {
    let reg = registry();
    let mut c = ServerConnection::new();
    assert!(matches!(c.step(&reg, handshake_stream()), ConnectionAction::ReadClientHello));
    let a = c.step(&reg, ConnectionEvent::ClientHelloRead { hello: None, connection_allowed: true });
    assert!(matches!(a, ConnectionAction::Close { reason: CloseReason::InvalidHandshake }));
    assert_eq!(CloseReason::InvalidHandshake.text(), "Invalid handshake");
}

#[test]
fn unauthorized_peer_gets_failure_then_close() {
    let reg = registry();
    let mut c = ServerConnection::new();
    c.step(&reg, handshake_stream());
    let a = c.step(&reg, ConnectionEvent::ClientHelloRead { hello: Some(hello(&[ECHO])), connection_allowed: false });
    match a {
        ConnectionAction::SendServerHello { hello, close } => {
            assert!(matches!(hello, ServerHello::Failure { code: HandshakeError::Unauthorized }));
            assert_eq!(close, Some(CloseReason::Unauthorized));
        }
        _ => panic!("expected a server hello"),
    }
    assert_eq!(c.phase(), ConnectionPhase::Closed);
}

#[test]
fn request_stream_runs_request_handler() {
    let reg = registry();
    let mut c = ServerConnection::new();
    c.step(&reg, handshake_stream());
    let a = c.step(&reg, ConnectionEvent::ClientHelloRead { hello: Some(hello(&[ECHO])), connection_allowed: true });
    match a {
        ConnectionAction::SendServerHello { hello, close } => {
            assert_eq!(accepted(&hello), vec![ECHO.to_string()]);
            assert_eq!(close, None);
        }
        _ => panic!("expected a server hello"),
    }
    assert_eq!(c.phase(), ConnectionPhase::Serving);
    // A stream of another protocol is skipped.
    let other = ConnectionEvent::StreamAccepted { protocol: Protocol::Ping };
    assert!(matches!(c.step(&reg, other), ConnectionAction::AcceptNextStream));
    assert!(matches!(c.step(&reg, app_stream()), ConnectionAction::ReadWrapper));
    let a = c.step(&reg, ConnectionEvent::WrapperRead { protocol_json: ECHO.to_string(), protocol_debug: "String(\"Echo\")".to_string(), data_json: "{\"message\":\"hi\"}".to_string() });
    assert!(matches!(a, ConnectionAction::CheckStreamAuth));
    let a = c.step(&reg, ConnectionEvent::StreamAuthChecked { allowed: true });
    assert!(matches!(a, ConnectionAction::RunRequestHandler { ref protocol_json, ref data_json }
        if protocol_json == ECHO && data_json == "{\"message\":\"hi\"}"));
    let a = c.step(&reg, ConnectionEvent::RequestReplied { reply: "{\"echoed\":\"hi\"}".to_string() });
    assert!(matches!(a, ConnectionAction::SendResponse { ref line } if line == "{\"echoed\":\"hi\"}\n"));
    let a = c.step(&reg, ConnectionEvent::ResponseSent { delivered: true });
    assert!(matches!(a, ConnectionAction::FinishStream));
    assert_eq!(c.phase(), ConnectionPhase::Serving);
}

#[test]
fn stream_protocol_goes_to_stream_handler_and_unknown_is_reported() {
    let reg = registry();
    let mut c = ServerConnection::new();
    c.step(&reg, handshake_stream());
    c.step(&reg, ConnectionEvent::ClientHelloRead { hello: Some(hello(&[FILES])), connection_allowed: true });
    c.step(&reg, app_stream());
    c.step(&reg, ConnectionEvent::WrapperRead { protocol_json: FILES.to_string(), protocol_debug: "String(\"Files\")".to_string(), data_json: "null".to_string() });
    let a = c.step(&reg, ConnectionEvent::StreamAuthChecked { allowed: true });
    assert!(matches!(a, ConnectionAction::RunStreamHandler { ref protocol_json, ref data_json }
        if protocol_json == FILES && data_json == "null"));
    assert!(matches!(c.step(&reg, ConnectionEvent::HandlerFinished), ConnectionAction::AcceptNextStream));
    c.step(&reg, app_stream());
    c.step(&reg, ConnectionEvent::WrapperRead { protocol_json: "\"Chat\"".to_string(), protocol_debug: "String(\"Chat\")".to_string(), data_json: "1".to_string() });
    let a = c.step(&reg, ConnectionEvent::StreamAuthChecked { allowed: true });
    assert!(matches!(a, ConnectionAction::ReportNoHandler { ref protocol_json, ref line }
        if protocol_json == "\"Chat\"" && line == "No handler for protocol: String(\"Chat\")\n"));
    assert_eq!(c.phase(), ConnectionPhase::Serving);
}

#[test]
fn denied_stream_and_bad_wrapper_are_answered() {
    let reg = registry();
    let mut c = ServerConnection::new();
    c.step(&reg, handshake_stream());
    c.step(&reg, ConnectionEvent::ClientHelloRead { hello: Some(hello(&[ECHO])), connection_allowed: true });
    c.step(&reg, app_stream());
    let a = c.step(&reg, ConnectionEvent::WrapperInvalid { error: "EOF".to_string() });
    assert!(matches!(a, ConnectionAction::ReplyLine { ref line, finish: false }
        if line == "Failed to parse wrapper request: EOF\n"));
    c.step(&reg, app_stream());
    c.step(&reg, ConnectionEvent::WrapperRead { protocol_json: ECHO.to_string(), protocol_debug: "String(\"Echo\")".to_string(), data_json: "{\"message\":\"hi\"}".to_string() });
    let a = c.step(&reg, ConnectionEvent::StreamAuthChecked { allowed: false });
    assert!(matches!(a, ConnectionAction::ReplyLine { ref line, finish: true } if line == "Authorization denied\n"));
    assert!(matches!(c.step(&reg, ConnectionEvent::IoFailed), ConnectionAction::Stop { failed: true }));
    assert_eq!(c.phase(), ConnectionPhase::Closed);
}

#[test]
fn client_call_happy_path() {
    let mut call = ClientCall::new(ClientMode::Call, ECHO.to_string(), "{\"message\":\"hi\"}".to_string());
    let a = call.step(ClientEvent::AckRead { line: ACK.to_string() });
    match a {
        ClientAction::SendClientHello { hello } => {
            assert_eq!(hello.client_name, "fastn-p2p-client");
            assert_eq!(hello.client_version, "0.1.0");
            assert_eq!(hello.supported_protocols, vec![ECHO.to_string()]);
            assert_eq!(hello.auth_token, None);
        }
        _ => panic!("expected hello"),
    }
    let a = call.step(ClientEvent::ServerHelloRead { hello: ServerHello::success_with(vec![ECHO.to_string()]) });
    assert!(matches!(a, ClientAction::OpenAppStream));
    let a = call.step(ClientEvent::AckRead { line: ACK.to_string() });
    assert!(matches!(a, ClientAction::SendRequest { ref line, await_response: true }
        if line == "{\"data\":{\"message\":\"hi\"},\"protocol\":\"Echo\"}"));
    let a = call.step(ClientEvent::ResponseRead {
        line: "{\"echoed\":\"hi\"}".to_string(),
        decodes_as_output: true,
        decodes_as_error: true,
    });
    assert!(matches!(a, ClientAction::DeliverOutput { ref line } if line == "{\"echoed\":\"hi\"}"));
    assert_eq!(call.phase(), ClientPhase::Done);
    assert!(matches!(call.step(ClientEvent::AckRead { line: ACK.to_string() }), ClientAction::Ignore));
}

#[test]
fn client_call_application_error_and_undecodable() {
    let mut call = ClientCall::new(ClientMode::Call, ECHO.to_string(), "1".to_string());
    call.step(ClientEvent::AckRead { line: ACK.to_string() });
    call.step(ClientEvent::ServerHelloRead { hello: ServerHello::success_with(vec![ECHO.to_string()]) });
    call.step(ClientEvent::AckRead { line: ACK.to_string() });
    let a = call.step(ClientEvent::ResponseRead { line: "e".to_string(), decodes_as_output: false, decodes_as_error: true });
    assert!(matches!(a, ClientAction::DeliverAppError { ref line } if line == "e"));

    let mut call = ClientCall::new(ClientMode::Call, ECHO.to_string(), "1".to_string());
    call.step(ClientEvent::AckRead { line: ACK.to_string() });
    call.step(ClientEvent::ServerHelloRead { hello: ServerHello::success_with(vec![ECHO.to_string()]) });
    call.step(ClientEvent::AckRead { line: ACK.to_string() });
    let a = call.step(ClientEvent::ResponseRead { line: "?".to_string(), decodes_as_output: false, decodes_as_error: false });
    match a {
        ClientAction::Fail { failure } => {
            assert_eq!(failure.kind, ClientErrorKind::Deserialization);
            assert_eq!(failure.message, "Response doesn't match expected OUTPUT or ERROR types: ?");
        }
        _ => panic!("expected failure"),
    }
}

#[test]
fn client_stops_on_refusals() {
    let mut call = ClientCall::new(ClientMode::Call, ECHO.to_string(), "1".to_string());
    let a = call.step(ClientEvent::AckRead { line: "nope".to_string() });
    assert!(matches!(a, ClientAction::Fail { ref failure } if failure.message == "Expected ACK, got: nope"));

    let mut call = ClientCall::new(ClientMode::Connect, ECHO.to_string(), "1".to_string());
    call.step(ClientEvent::AckRead { line: ACK.to_string() });
    let a = call.step(ClientEvent::ServerHelloRead { hello: ServerHello::failure(HandshakeError::Unauthorized) });
    assert!(matches!(a, ClientAction::Fail { ref failure } if failure.message == "Server rejected handshake: Unauthorized"));

    let mut call = ClientCall::new(ClientMode::Connect, ECHO.to_string(), "1".to_string());
    call.step(ClientEvent::AckRead { line: ACK.to_string() });
    let a = call.step(ClientEvent::ServerHelloRead { hello: ServerHello::success_with(vec![FILES.to_string()]) });
    assert!(matches!(a, ClientAction::Fail { ref failure } if failure.message == "Server doesn't support requested protocol"));
    assert_eq!(call.phase(), ClientPhase::Failed);
}

#[test]
fn connect_hands_over_after_request() {
    let mut call = ClientCall::new(ClientMode::Connect, FILES.to_string(), "\"a.txt\"".to_string());
    call.step(ClientEvent::AckRead { line: ACK.to_string() });
    call.step(ClientEvent::ServerHelloRead { hello: ServerHello::success_with(vec![FILES.to_string()]) });
    let a = call.step(ClientEvent::AckRead { line: "bad".to_string() });
    assert!(matches!(a, ClientAction::Fail { ref failure } if failure.message == "Expected ACK for app protocol, got: bad"));

    let mut call = ClientCall::new(ClientMode::Connect, FILES.to_string(), "\"a.txt\"".to_string());
    call.step(ClientEvent::AckRead { line: ACK.to_string() });
    call.step(ClientEvent::ServerHelloRead { hello: ServerHello::success_with(vec![FILES.to_string()]) });
    let a = call.step(ClientEvent::AckRead { line: ACK.to_string() });
    assert!(matches!(a, ClientAction::SendRequest { await_response: false, .. }));
    assert_eq!(call.phase(), ClientPhase::Done);
}

#[test]
fn failure_conversion_keeps_kind_and_message() {
    let f = ClientFailure { kind: ClientErrorKind::Send, message: "broken pipe".to_string() };
    assert!(matches!(f.into_call_error(), CallError::Send { ref message } if message == "broken pipe"));
    let f = ClientFailure { kind: ClientErrorKind::Endpoint, message: "bind".to_string() };
    assert!(matches!(f.into_connection_error(), ConnectionError::Endpoint { ref message } if message == "bind"));
    assert_eq!(wrapper_request_line("\"P\"", "null"), "{\"data\":null,\"protocol\":\"P\"}");
}

#[test]
fn request_reply_line_adds_line_feed() {
    assert_eq!(request_reply_line("{\"ok\":true}"), "{\"ok\":true}\n");
    assert_eq!(request_reply_line(""), "\n");
}
