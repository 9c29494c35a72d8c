use fastn_p2p::cli::daemon::protocol_trait::{get_available_protocols, resolve_protocol};
use fastn_p2p::cli::identity::{key_file_alias_of, remove_protocol_binding, set_identity_state};
use fastn_p2p::client::{ClientAction, ClientCall, ClientEvent, ClientMode};
use fastn_p2p::handshake::{ClientHello, APP_PROTOCOL_JSON, HANDSHAKE_PROTOCOL_JSON};
use fastn_p2p::net::endpoint_singleton::{EndpointSlot, EndpointStep};
use fastn_p2p::net::protocol::{Protocol, ACK};
use fastn_p2p::server::builder::{reply_to_hello, ConnectionAction, ConnectionEvent, HandlerRegistry, ServerConnection};
use fastn_p2p::server::daemon::{
    discover_protocol_bindings, AliasDirInfo, DirEntryInfo, IdentityConfig, ProtocolBinding, ProtocolDirInfo,
};
use fastn_p2p::cli::identity::add_protocol_files;
use fastn_p2p::malai::utils::parse_host_port;

fn alice() -> IdentityConfig {
    IdentityConfig::new("alice".to_string(), fastn_id52::SecretKey::generate().to_bytes())
        .add_protocol("Echo".to_string(), "default".to_string(), "/e".to_string())
}

#[test]
fn removing_an_added_binding_restores_the_bindings() {
    let mut c = alice();
    let before: Vec<(String, String)> =
        c.protocols.iter().map(|b| (b.protocol.clone(), b.bind_alias.clone())).collect();
    let mut c2 = c.add_protocol("Shell".to_string(), "x".to_string(), "/s".to_string());
    remove_protocol_binding(&mut c2, "alice", "Shell", "x").unwrap();
    let after: Vec<(String, String)> =
        c2.protocols.iter().map(|b| (b.protocol.clone(), b.bind_alias.clone())).collect();
    assert_eq!(before, after);
    // Removing a binding that is not there changes nothing.
    assert!(remove_protocol_binding(&mut c2, "alice", "Shell", "x").is_err());
    assert_eq!(c2.protocols.len(), 1);
    c = c2;
    assert_eq!(c.protocols[0].config_path, "/e");
}

#[test]
fn setting_a_state_twice_changes_nothing_the_second_time() {
    let mut c = alice();
    assert!(set_identity_state(&mut c, false));
    assert!(!set_identity_state(&mut c, false));
    assert!(!c.online);
    assert_eq!(c.protocols.len(), 1);
}

#[test]
fn endpoint_is_kept_once_created() {
    let mut slot = EndpointSlot::new();
    slot.install("first");
    for e in ["second", "third"] {
        assert_eq!(slot.step(), EndpointStep::Reuse);
        assert!(!slot.install(e));
    }
    assert_eq!(slot.get(), Some(&"first"));
}

#[test]
fn saved_key_file_is_found_again() {
    for alias in ["alice", "a.b", ".hidden", "x.private-key"] {
        let name = format!("{alias}.private-key");
        assert_eq!(key_file_alias_of(&name), Some(alias.to_string()));
    }
}

#[test]
fn every_available_protocol_resolves() {
    for name in get_available_protocols() {
        assert!(resolve_protocol(name).is_ok());
    }
}

/// Runs a client attempt for `protocol` against a server with `registry`,
/// feeding each side what the other produced, and returns whether the
/// client went on to send its request.
fn client_reaches_request(registry: &HandlerRegistry, protocol: &str, allowed: bool) -> bool {
    let mut server = ServerConnection::new();
    let mut client = ClientCall::new(ClientMode::Call, protocol.to_string(), "{}".to_string());
    let a = server.step(registry, ConnectionEvent::StreamAccepted {
        protocol: Protocol::Generic(HANDSHAKE_PROTOCOL_JSON.to_string()),
    });
    assert!(matches!(a, ConnectionAction::ReadClientHello));
    let hello = match client.step(ClientEvent::AckRead { line: ACK.to_string() }) {
        ClientAction::SendClientHello { hello } => hello,
        _ => panic!("expected hello"),
    };
    let server_hello = reply_to_hello(&hello, registry, allowed);
    match client.step(ClientEvent::ServerHelloRead { hello: server_hello }) {
        ClientAction::OpenAppStream => {}
        ClientAction::Fail { .. } => return false,
        _ => panic!("unexpected action"),
    }
    let a = server.step(registry, ConnectionEvent::ClientHelloRead { hello: Some(hello), connection_allowed: allowed });
    assert!(matches!(a, ConnectionAction::SendServerHello { close: None, .. }));
    let a = server.step(registry, ConnectionEvent::StreamAccepted {
        protocol: Protocol::Generic(APP_PROTOCOL_JSON.to_string()),
    });
    assert!(matches!(a, ConnectionAction::ReadWrapper));
    matches!(client.step(ClientEvent::AckRead { line: ACK.to_string() }), ClientAction::SendRequest { .. })
}

#[test]
fn client_proceeds_exactly_when_server_handles_its_protocol() {
    let mut registry = HandlerRegistry::new();
    registry.register_request("\"Echo\"".to_string());
    assert!(client_reaches_request(&registry, "\"Echo\"", true));
    assert!(!client_reaches_request(&registry, "\"Echo\"", false));
    assert!(!client_reaches_request(&registry, "\"Shell\"", true));
    let hello = ClientHello::new("c", "1").with_protocol(Some("\"Echo\"".to_string())).with_auth("t".to_string());
    assert_eq!(hello.auth_token.as_deref(), Some("t"));
}

fn entry(name: &str, path: &str) -> DirEntryInfo {
    DirEntryInfo { name: Some(name.to_string()), path: path.to_string(), is_dir: true }
}

#[test]
fn added_binding_is_discovered_where_its_config_is_written() {
    let files = add_protocol_files("/h", "alice", "Echo", "backup", "{\"max_length\": 1000}").unwrap();
    assert!(files.config_file.starts_with(&files.protocol_config_path));
    assert!(files.config_file.ends_with("/config.json"));
    // The listing of /h/identities/alice/protocols once that file is written.
    let listing = vec![ProtocolDirInfo {
        entry: entry("Echo", "/h/identities/alice/protocols/Echo"),
        aliases: vec![AliasDirInfo { entry: entry("backup", &files.protocol_config_path), has_config: true }],
    }];
    let found = discover_protocol_bindings(&listing);
    assert_eq!(found.len(), 1);
    assert_eq!(
        (found[0].protocol.as_str(), found[0].bind_alias.as_str(), found[0].config_path.as_str()),
        ("Echo", "backup", files.protocol_config_path.as_str())
    );
}

#[test]
fn removed_binding_stays_removed_after_saving() {
    let stored = vec![
        ProtocolBinding { protocol: "Echo".into(), bind_alias: "default".into(), config_path: "/p/Echo/default".into() },
        ProtocolBinding { protocol: "Shell".into(), bind_alias: "default".into(), config_path: "/p/Shell/default".into() },
    ];
    let mut c = IdentityConfig::new("alice".to_string(), fastn_id52::SecretKey::generate().to_bytes());
    for b in &stored {
        c = c.add_protocol(b.protocol.clone(), b.bind_alias.clone(), b.config_path.clone());
    }
    remove_protocol_binding(&mut c, "alice", "Shell", "default").unwrap();
    let plan = c.save_plan("/i", true, true, &stored);
    let after: Vec<&ProtocolBinding> = stored.iter().filter(|b| !plan.remove_dirs.contains(&b.config_path)).collect();
    assert_eq!(after.len(), 1);
    assert_eq!(after[0].protocol, "Echo");
}

#[test]
fn host_and_printed_port_parse_back() {
    for port in [0u16, 7, 80, 443, 8080, 65535] {
        let args = vec!["example.com".to_string(), port.to_string(), "extra".to_string()];
        assert_eq!(parse_host_port(&args).unwrap(), ("example.com".to_string(), port));
    }
}

#[test]
fn white_space_matches_std() {
    for u in 0u32..0x11_0000 {
        if let Some(c) = char::from_u32(u) {
            let words = fastn_p2p::text::split_words(&vec!['a', c, 'b']);
            assert_eq!(words.len() == 2, c.is_whitespace(), "code point {u:#x}");
        }
    }
}

#[test]
fn protocol_debug_text_is_what_the_caller_supplies() {
    assert_eq!(format!("{:?}", serde_json::Value::String("Chat".to_string())), "String(\"Chat\")");
}
