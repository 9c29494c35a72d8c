use fastn_p2p::keys::load_secret_key;
use fastn_p2p::net::endpoint_singleton::{is_initialized, EndpointSlot, EndpointStep};
use fastn_p2p::net::protocol::{Protocol, ProtocolHeader, APNS_IDENTITY};
use fastn_p2p::protocols::{EchoError, TestProtocol};
use fastn_p2p::server::commands::{parse_command, CommandError, ServeCommand};
use fastn_p2p::server::daemon::{
    default_online_true, discover_protocol_bindings, identities_dir, identity_dirs, identity_source, AliasDirInfo,
    DirEntryInfo, IdentityConfig, IdentitySource, MarkerAction, ProtocolBinding, ProtocolDirInfo,
};
use fastn_p2p::server::serve_all::{echo_request_reply, serve_all, LifecycleHook, ProtocolBuilder};

fn args(v: &[&str]) -> Vec<String> {
    v.iter().map(|s| s.to_string()).collect()
}

fn entry(name: &str, path: &str, is_dir: bool) -> DirEntryInfo {
    DirEntryInfo { name: Some(name.to_string()), path: path.to_string(), is_dir }
}

#[test]
fn protocol_display_and_headers() {
    assert_eq!(Protocol::Ping.to_display_string(), "Ping");
    assert_eq!(Protocol::Application("mail.fastn.com".to_string()).to_display_string(), "mail.fastn.com");
    assert_eq!(Protocol::Generic("{\"type\":\"custom\"}".to_string()).to_display_string(), "Generic({\"type\":\"custom\"})");
    assert_eq!(APNS_IDENTITY, "/fastn/entity/0.1");
    let h = ProtocolHeader::from_protocol(Protocol::Http);
    assert!(h.is_builtin());
    assert!(h.serve_all_routing().is_none());
    let h = ProtocolHeader::for_application("Mail".to_string(), "send".to_string(), "default".to_string(), args(&["-v"]));
    assert!(!h.is_builtin());
    let (name, command, alias, rest) = h.serve_all_routing().unwrap();
    assert_eq!((name, command, alias), ("Mail", "send", "default"));
    assert_eq!(rest, &["-v".to_string()][..]);
}

#[test]
fn endpoint_created_once_then_reused() {
    let mut slot: EndpointSlot<u32> = EndpointSlot::new();
    assert!(!is_initialized(&slot));
    assert_eq!(slot.step(), EndpointStep::Create);
    assert!(slot.install(7));
    assert!(is_initialized(&slot));
    assert_eq!(slot.step(), EndpointStep::Reuse);
    assert!(!slot.install(8));
    assert_eq!(slot.get(), Some(&7));
}

#[test]
fn management_commands_parse() {
    assert!(matches!(parse_command(&args(&["srv"])).unwrap(), ServeCommand::Serve));
    assert!(matches!(parse_command(&args(&["srv", "run"])).unwrap(), ServeCommand::Serve));
    assert!(matches!(parse_command(&args(&["srv", "init"])).unwrap(), ServeCommand::Init));
    match parse_command(&args(&["srv", "call", "peer", "Echo"])).unwrap() {
        ServeCommand::Call { peer, protocol, bind_alias } => {
            assert_eq!((peer.as_str(), protocol.as_str(), bind_alias.as_str()), ("peer", "Echo", "default"));
        }
        _ => panic!("expected call"),
    }
    match parse_command(&args(&["srv", "add-protocol", "alice", "--protocol", "Echo", "--config", "{}"])).unwrap() {
        ServeCommand::AddProtocol { identity, protocol, alias, config } => {
            assert_eq!((identity.as_str(), protocol.as_str(), alias.as_str(), config.as_str()), ("alice", "Echo", "default", "{}"));
        }
        _ => panic!("expected add-protocol"),
    }
    match parse_command(&args(&["srv", "remove-protocol", "--alias", "b", "alice", "x", "--protocol", "Echo"])).unwrap() {
        ServeCommand::RemoveProtocol { identity, protocol, alias } => {
            assert_eq!((identity.as_str(), protocol.as_str(), alias.as_str()), ("alice", "Echo", "b"));
        }
        _ => panic!("expected remove-protocol"),
    }
}

#[test]
fn management_command_errors() {
    match parse_command(&args(&["srv", "stream", "peer"])).unwrap_err() {
        CommandError::Usage { message } => assert_eq!(message, "Usage: srv stream <peer> <protocol>"),
        _ => panic!("expected usage"),
    }
    match parse_command(&args(&["srv", "add-protocol", "alice"])).unwrap_err() {
        CommandError::Invalid { message } => assert_eq!(message, "Missing --protocol argument"),
        _ => panic!("expected invalid"),
    }
    match parse_command(&args(&["srv", "add-protocol", "--protocol", "Echo"])).unwrap_err() {
        CommandError::Invalid { message } => assert_eq!(message, "Missing identity argument"),
        _ => panic!("expected invalid"),
    }
    match parse_command(&args(&["srv", "add-protocol", "alice", "--protocol"])).unwrap_err() {
        CommandError::Usage { message } => assert_eq!(message, "--protocol requires a value"),
        _ => panic!("expected usage"),
    }
}

#[test]
fn serve_home_and_registration() {
    assert_eq!(serve_all(Some("/f".to_string()), Some("/home/u".to_string())).fastn_home(), "/f");
    assert_eq!(serve_all(None, Some("/home/u".to_string())).fastn_home(), "/home/u/.fastn");
    assert_eq!(serve_all(None, None).fastn_home(), "/tmp/.fastn");
    let echo = ProtocolBuilder::new("Echo").handle_requests("echo").on_hook(LifecycleHook::Create);
    assert!(echo.has_request_command("echo"));
    assert!(!echo.has_stream_command("echo"));
    assert!(echo.has_hook(LifecycleHook::Create));
    assert!(!echo.has_hook(LifecycleHook::Delete));
    let b = serve_all(Some("/f".to_string()), None).register_protocol(echo);
    assert!(b.has_protocol("Echo"));
    assert!(!b.has_protocol("Shell"));
    assert_eq!(b.find_protocol("Echo").unwrap().name(), "Echo");
}

#[test]
fn plan_serves_online_bindings_of_registered_protocols() {
    let b = serve_all(Some("/f".to_string()), None)
        .register_protocol(ProtocolBuilder::new("Echo").handle_requests("echo"))
        .register_protocol(ProtocolBuilder::new("Files").handle_streams("get"));
    let alice = IdentityConfig::new("alice".to_string(), fastn_id52::SecretKey::generate().to_bytes())
        .add_protocol("Echo".to_string(), "default".to_string(), "/a/echo".to_string())
        .add_protocol("Chat".to_string(), "default".to_string(), "/a/chat".to_string())
        .add_protocol("Files".to_string(), "share".to_string(), "/a/files".to_string());
    let mut bob = IdentityConfig::new("bob".to_string(), fastn_id52::SecretKey::generate().to_bytes())
        .add_protocol("Echo".to_string(), "default".to_string(), "/b/echo".to_string());
    bob.online = false;
    let plan = b.plan_services(&vec![alice, bob]).unwrap();
    assert_eq!(plan.len(), 2);
    assert_eq!((plan[0].identity.as_str(), plan[0].protocol.as_str(), plan[0].protocol_dir.as_str()), ("alice", "Echo", "/a/echo"));
    assert!(plan[0].requests && !plan[0].streams);
    assert_eq!((plan[1].protocol.as_str(), plan[1].bind_alias.as_str()), ("Files", "share"));
    assert!(!plan[1].requests && plan[1].streams);
}

#[test]
fn plan_needs_an_online_identity() {
    let b = serve_all(Some("/f".to_string()), None);
    let mut bob = IdentityConfig::new("bob".to_string(), fastn_id52::SecretKey::generate().to_bytes());
    bob.online = false;
    let e = b.plan_services(&vec![bob]).unwrap_err();
    assert_eq!(e, "No online identities found. Set identities online with: fastn-p2p identity-online <name>");
    assert!(b.plan_services(&vec![]).is_err());
}

#[test]
fn echo_command_replies() {
    assert_eq!(echo_request_reply("alice", "echo", Some("hi".to_string())).unwrap(), "Echo from alice (echo): hi");
    assert_eq!(echo_request_reply("alice", "echo", None).unwrap(), "Echo from alice (echo): (no message)");
    assert_eq!(echo_request_reply("alice", "echo", Some(String::new())).unwrap_err(), "Message cannot be empty");
}

#[test]
fn identity_layout_and_discovery() {
    assert!(default_online_true());
    assert_eq!(identities_dir("/h"), "/h/identities");
    match identity_source("/h/identities", "alice", true) {
        IdentitySource::Conventional { identity_dir } => assert_eq!(identity_dir, "/h/identities/alice"),
        _ => panic!("expected conventional"),
    }
    match identity_source("/h/identities", "alice", false) {
        IdentitySource::Legacy { config_path } => assert_eq!(config_path, "/h/identities/alice.config.json"),
        _ => panic!("expected legacy"),
    }
    let listing = vec![entry("alice", "/i/alice", true), entry("x.txt", "/i/x.txt", false),
        DirEntryInfo { name: None, path: "/i/\u{FFFD}".to_string(), is_dir: true }, entry("bob", "/i/bob", true)];
    assert_eq!(identity_dirs(&listing), vec![("alice".to_string(), "/i/alice".to_string()), ("bob".to_string(), "/i/bob".to_string())]);
    let dirs = vec![
        ProtocolDirInfo {
            entry: entry("Echo", "/p/Echo", true),
            aliases: vec![
                AliasDirInfo { entry: entry("default", "/p/Echo/default", true), has_config: true },
                AliasDirInfo { entry: entry("spare", "/p/Echo/spare", true), has_config: false },
            ],
        },
        ProtocolDirInfo { entry: entry("README", "/p/README", false), aliases: vec![] },
    ];
    let found = discover_protocol_bindings(&dirs);
    assert_eq!(found.len(), 1);
    assert_eq!((found[0].protocol.as_str(), found[0].bind_alias.as_str(), found[0].config_path.as_str()), ("Echo", "default", "/p/Echo/default"));
}

#[test]
fn save_plan_marker_actions() {
    let mut c = IdentityConfig::new("alice".to_string(), fastn_id52::SecretKey::generate().to_bytes());
    let p = c.save_plan("/h/identities", false, false, &vec![]);
    assert_eq!(p.identity_dir, "/h/identities/alice");
    assert_eq!(p.marker_path, "/h/identities/alice/online");
    assert!(p.key_text.is_some());
    assert_eq!(p.marker, MarkerAction::Write);
    c.online = false;
    assert_eq!(c.save_plan("/h/identities", true, true, &vec![]).marker, MarkerAction::Remove);
    assert_eq!(c.save_plan("/h/identities", true, false, &vec![]).marker, MarkerAction::Keep);
    assert!(c.save_plan("/h/identities", true, false, &vec![]).key_text.is_none());
}

#[test]
fn test_protocol_types() {
    assert_eq!(TestProtocol::Echo, TestProtocol::Echo);
    assert_ne!(TestProtocol::Echo, TestProtocol::Shell);
    assert_eq!(EchoError::InvalidMessage("m".to_string()).to_string(), "Invalid message: m");
}

#[test]
fn protocol_registration_through_a_builder_function() {
    let b = serve_all(Some("/f".to_string()), None)
        .protocol("Mail", |p| p.handle_requests("send").handle_streams("sync").on_create().on_global_unload())
        .protocol("Echo", |p| p.handle_requests("echo"));
    assert!(b.has_protocol("Mail"));
    assert!(b.has_protocol("Echo"));
    let mail = b.find_protocol("Mail").unwrap();
    assert_eq!(mail.name(), "Mail");
    assert!(mail.has_request_command("send"));
    assert!(mail.has_stream_command("sync"));
    assert!(mail.has_hook(LifecycleHook::Create));
    assert!(mail.has_hook(LifecycleHook::GlobalUnload));
    assert!(!mail.has_hook(LifecycleHook::Reload));
    let hooks = ProtocolBuilder::new("X")
        .on_activate()
        .on_deactivate()
        .on_check()
        .on_reload()
        .on_delete()
        .on_global_load();
    for h in [LifecycleHook::Activate, LifecycleHook::Deactivate, LifecycleHook::Check, LifecycleHook::Reload,
        LifecycleHook::Delete, LifecycleHook::GlobalLoad] {
        assert!(hooks.has_hook(h));
    }
    assert!(!hooks.has_hook(LifecycleHook::Create));
}

fn binding(protocol: &str, alias: &str, dir: &str) -> ProtocolBinding {
    ProtocolBinding { protocol: protocol.to_string(), bind_alias: alias.to_string(), config_path: dir.to_string() }
}

#[test]
fn save_plan_removes_dropped_binding_directories() {
    let stored = vec![
        binding("Echo", "default", "/i/alice/protocols/Echo/default"),
        binding("Shell", "default", "/i/alice/protocols/Shell/default"),
        binding("Echo", "backup", "/i/alice/protocols/Echo/backup"),
    ];
    let c = IdentityConfig::new("alice".to_string(), fastn_id52::SecretKey::generate().to_bytes())
        .add_protocol("Echo".to_string(), "default".to_string(), "/i/alice/protocols/Echo/default".to_string())
        .add_protocol("Echo".to_string(), "backup".to_string(), "/i/alice/protocols/Echo/backup".to_string());
    let p = c.save_plan("/i", true, true, &stored);
    assert_eq!(p.remove_dirs, vec!["/i/alice/protocols/Shell/default".to_string()]);
    assert!(c.save_plan("/i", true, true, &vec![]).remove_dirs.is_empty());
}

#[test]
fn saved_key_loads_back() {
    let bytes = [42u8; 32];
    let c = IdentityConfig::new("alice".to_string(), bytes);
    let p = c.save_plan("/h/identities", false, false, &vec![]);
    let text = p.key_text.unwrap();
    assert_eq!(load_secret_key(Some(text.clone())), Some(bytes));
    assert_eq!(text, fastn_id52::SecretKey::from_bytes(&bytes).to_string());
}
