use fastn_p2p::cli::client::{call_request, call_target, CALL_START_HINT, CALL_WITH_ARGS_START_HINT};
use fastn_p2p::cli::daemon::{daemon_key_path, get_or_create_daemon_key, summarize_identities};
use fastn_p2p::cli::fastn_home_from;
use fastn_p2p::cli::identity::{
    add_protocol_files, binding_files, check_new_binding, create_identity, identity_dir_path, identity_not_found,
    key_file_alias_of, key_file_aliases, remove_protocol_binding, set_identity_offline, set_identity_online,
};
use fastn_p2p::cli::status::{
    check_daemon_status, control_socket_path, identity_status_marks, lock_file_path, protocol_status_mark,
};
use fastn_p2p::daemon_client::{self, ClientError, ConnectionError};
use fastn_p2p::keys::load_secret_key;
use fastn_p2p::net::secret::read_or_create_key;
use fastn_p2p::server::daemon::IdentityConfig;

fn identity(alias: &str) -> IdentityConfig {
    IdentityConfig::new(alias.to_string(), fastn_id52::SecretKey::generate().to_bytes())
}

fn peer_id() -> String {
    fastn_id52::SecretKey::generate().id52()
}

#[test]
fn create_identity_paths_and_conflict() {
    assert_eq!(identity_dir_path("/home/u/.fastn", "alice"), "/home/u/.fastn/identities/alice");
    let created = create_identity("/home/u/.fastn", "alice", false).ok().unwrap();
    assert_eq!(created.identity_dir, "/home/u/.fastn/identities/alice");
    assert_eq!(fastn_id52::SecretKey::from_bytes(&created.secret_key).id52().len(), 52);
    assert_eq!(load_secret_key(Some(created.key_text.clone())), Some(created.secret_key));
    let err = create_identity("/home/u/.fastn/", "alice", true).err().unwrap();
    assert_eq!(err, "Identity 'alice' already exists at: /home/u/.fastn/identities/alice");
}

#[test]
fn binding_files_layout() {
    let f = binding_files("/h", "alice", "Echo", "default", None).unwrap();
    assert_eq!(f.identities_dir, "/h/identities");
    assert_eq!(f.protocol_config_path, "/h/identities/alice/protocols/Echo/default");
    assert_eq!(f.config_file, "/h/identities/alice/protocols/Echo/default/config.json");
    let e = binding_files("/h", "alice", "Echo", "default", Some("bad".to_string())).unwrap_err();
    assert_eq!(e, "Invalid JSON config: bad");
}

#[test]
fn add_protocol_config_goes_where_discovery_looks() {
    let f = add_protocol_files("/h", "bob", "Mail.Fastn.COM", "backup", "{\"max_length\": 1000}").unwrap();
    assert_eq!(f.protocol_config_path, "/h/identities/bob/protocols/Mail.Fastn.COM/backup");
    assert_eq!(f.config_file, "/h/identities/bob/protocols/Mail.Fastn.COM/backup/config.json");
}

#[test]
fn add_protocol_rejects_invalid_json() {
    let e = add_protocol_files("/h", "bob", "Echo", "default", "{not json").unwrap_err();
    let serde_message = serde_json::from_str::<serde_json::Value>("{not json").unwrap_err().to_string();
    assert_eq!(e, format!("Invalid JSON config: {serde_message}"));
    assert!(add_protocol_files("/h", "bob", "Echo", "default", "").is_err());
    assert!(add_protocol_files("/h", "bob", "Echo", "default", "[1, 2]").is_ok());
}

#[test]
fn duplicate_binding_is_refused() {
    let c = identity("alice").add_protocol("Echo".to_string(), "default".to_string(), "/p".to_string());
    let e = check_new_binding(&c, "alice", "Echo", "default").unwrap_err();
    assert_eq!(e, "Protocol binding 'Echo' as 'default' already exists for identity 'alice'");
    assert!(check_new_binding(&c, "alice", "Echo", "backup").is_ok());
    assert!(check_new_binding(&c, "alice", "Shell", "default").is_ok());
}

#[test]
fn remove_binding_then_report_missing() {
    let mut c = identity("alice")
        .add_protocol("Echo".to_string(), "default".to_string(), "/p1".to_string())
        .add_protocol("Shell".to_string(), "default".to_string(), "/p2".to_string());
    assert!(remove_protocol_binding(&mut c, "alice", "Echo", "default").is_ok());
    assert_eq!(c.protocols.len(), 1);
    assert_eq!(c.protocols[0].protocol, "Shell");
    let e = remove_protocol_binding(&mut c, "alice", "Echo", "default").unwrap_err();
    assert_eq!(e, "Protocol binding 'Echo' as 'default' not found for identity 'alice'");
    assert_eq!(c.protocols.len(), 1);
}

#[test]
fn online_offline_switching() {
    let mut c = identity("alice");
    assert!(c.online);
    assert!(!set_identity_online(&mut c));
    assert!(set_identity_offline(&mut c));
    assert!(!c.online);
    assert!(!set_identity_offline(&mut c));
    assert!(!c.online);
    assert!(set_identity_online(&mut c));
    assert!(c.online);
}

#[test]
fn identity_not_found_message() {
    assert_eq!(identity_not_found("bob", "no such dir"), "Identity 'bob' not found: no such dir");
}

#[test]
fn key_file_names() {
    assert_eq!(key_file_alias_of("alice.private-key"), Some("alice".to_string()));
    assert_eq!(key_file_alias_of("a.b.private-key"), Some("a.b".to_string()));
    assert_eq!(key_file_alias_of(".private-key"), None);
    assert_eq!(key_file_alias_of("..private-key"), Some(".".to_string()));
    assert_eq!(key_file_alias_of("alice.private-key.bak"), None);
    assert_eq!(key_file_alias_of("alice"), None);
    assert_eq!(key_file_alias_of("alice.id52"), None);
    let names: Vec<String> =
        ["bob.private-key", "notes.txt", "carol.private-key", "dave"].iter().map(|s| s.to_string()).collect();
    assert_eq!(key_file_aliases(&names), vec!["bob".to_string(), "carol".to_string()]);
}

#[test]
fn key_file_alias_matches_std_path() {
    for name in ["x.private-key", ".private-key", "..private-key", "a.b.c", "private-key", ".x.private-key"] {
        let p = std::path::Path::new(name);
        let expected = if p.extension().and_then(|s| s.to_str()) == Some("private-key") {
            p.file_stem().and_then(|s| s.to_str()).map(|s| s.to_string())
        } else {
            None
        };
        assert_eq!(key_file_alias_of(name), expected, "name {name:?}");
    }
}

#[test]
fn fastn_home_choice() {
    assert_eq!(fastn_home_from(Some("/custom".to_string()), Some("/home/u".to_string())).unwrap(), "/custom");
    assert_eq!(fastn_home_from(None, Some("/home/u".to_string())).unwrap(), "/home/u/.fastn");
    assert_eq!(fastn_home_from(None, None).unwrap_err(), "Could not determine user home directory");
    assert_eq!(fastn_p2p::cli::get_fastn_home(Some("/x".to_string())).unwrap(), "/x");
}

#[test]
fn client_fastn_home() {
    assert_eq!(daemon_client::fastn_home_of(Some("/e".to_string()), None).unwrap(), "/e");
    assert_eq!(daemon_client::fastn_home_of(None, Some("/u".to_string())).unwrap(), "/u/.fastn");
    let e = daemon_client::fastn_home_of(None, None).unwrap_err();
    assert_eq!(e.to_string(), "Configuration error: Could not determine user home directory");
    assert_eq!(daemon_client::get_fastn_home(Some("/e2".to_string())).unwrap(), "/e2");
}

#[test]
fn client_error_messages() {
    assert_eq!(ClientError::DaemonConnection("x".to_string()).to_string(), "Daemon connection failed: x");
    assert_eq!(ClientError::Protocol("x".to_string()).to_string(), "Protocol error: x");
    assert_eq!(ClientError::Serialization { source: "x".to_string() }.to_string(), "Serialization error: x");
    assert_eq!(ClientError::Io { source: "x".to_string() }.to_string(), "IO error: x");
    assert_eq!(ConnectionError::DaemonConnection("y".to_string()).to_string(), "Failed to connect to daemon: y");
    assert_eq!(ConnectionError::StreamSetup("y".to_string()).to_string(), "Failed to establish stream: y");
}

#[test]
fn daemon_status_texts() {
    assert_eq!(control_socket_path("/h"), "/h/control.sock");
    assert_eq!(lock_file_path("/h/"), "/h/lock.file");
    assert_eq!(check_daemon_status(true, true), "🟢 Running (control socket + lock file present)");
    assert_eq!(check_daemon_status(false, true), "🟡 Lock file exists but no control socket (starting up or crashed?)");
    assert_eq!(check_daemon_status(true, false), "🔴 Not running");
    assert_eq!(check_daemon_status(false, false), "🔴 Not running");
    assert_eq!(identity_status_marks(true), ("🟢", "ONLINE"));
    assert_eq!(identity_status_marks(false), ("🔴", "OFFLINE"));
    assert_eq!(protocol_status_mark(false), "⏸️");
}

#[test]
fn call_needs_running_daemon() {
    let e = call_target("/h", false, CALL_START_HINT, &peer_id(), None).err().unwrap();
    assert_eq!(e, "Daemon not running. Socket not found: /h/control.sock. Start with: fastn-p2p daemon");
    let e = call_target("/h", false, CALL_WITH_ARGS_START_HINT, "x", None).err().unwrap();
    assert_eq!(e, "Daemon not running. Socket not found: /h/control.sock. Start with: request_response run");
}

#[test]
fn call_target_identity_and_peer() {
    let peer = peer_id();
    let t = call_target("/h", true, CALL_START_HINT, &peer, None).ok().unwrap();
    assert_eq!(t.from_identity, "alice");
    assert_eq!(t.socket_path, "/h/control.sock");
    assert_eq!(t.to_peer.to_string(), peer);
    let t = call_target("/h", true, CALL_START_HINT, &peer, Some("bob".to_string())).ok().unwrap();
    assert_eq!(t.from_identity, "bob");
    let e = call_target("/h", true, CALL_START_HINT, "not-a-peer", None).err().unwrap();
    let reason = "not-a-peer".parse::<fastn_id52::PublicKey>().unwrap_err().to_string();
    assert_eq!(e, format!("Invalid peer ID 'not-a-peer': {reason}"));
}

#[test]
fn call_request_from_stdin() {
    assert_eq!(call_request("  {\"message\": \"hi\"}\n").unwrap(), "{\"message\": \"hi\"}");
    assert_eq!(call_request(" \n\t ").unwrap_err(), "No JSON input provided on stdin");
    let e = call_request("{oops").unwrap_err();
    assert_eq!(e, serde_json::from_str::<serde_json::Value>("{oops").unwrap_err().to_string());
}

#[test]
fn identity_summary_counts_online_bindings() {
    let mut offline = identity("bob").add_protocol("Echo".to_string(), "default".to_string(), "/b".to_string());
    set_identity_offline(&mut offline);
    let alice = identity("alice")
        .add_protocol("Echo".to_string(), "default".to_string(), "/a1".to_string())
        .add_protocol("Shell".to_string(), "default".to_string(), "/a2".to_string());
    let carol = identity("carol");
    let s = summarize_identities(&vec![alice, offline, carol]);
    assert_eq!((s.total, s.online, s.online_protocols), (3, 2, 2));
    let s = summarize_identities(&vec![]);
    assert_eq!((s.total, s.online, s.online_protocols), (0, 0, 0));
}

#[test]
fn daemon_key_from_file() {
    assert_eq!(daemon_key_path("/h"), "/h/daemon.key");
    let bytes = [7u8; 32];
    let (key, loaded) = get_or_create_daemon_key(Some(bytes.to_vec()));
    assert!(loaded);
    assert_eq!(key, bytes);
    let (_, loaded) = get_or_create_daemon_key(Some(vec![1, 2, 3]));
    assert!(!loaded);
    let (_, loaded) = get_or_create_daemon_key(None);
    assert!(!loaded);
}

#[test]
fn node_key_from_file() {
    let bytes = [9u8; 32];
    let text = fastn_id52::SecretKey::from_bytes(&bytes).to_string();
    let (id52, key, must_save) = read_or_create_key(Some(text));
    assert!(!must_save);
    assert_eq!(key, bytes);
    assert_eq!(id52, fastn_id52::SecretKey::from_bytes(&bytes).id52());
    assert_eq!(id52.len(), 52);
    let (id52, key, must_save) = read_or_create_key(None);
    assert!(must_save);
    assert_eq!(id52, fastn_id52::SecretKey::from_bytes(&key).id52());
    let (_, _, must_save) = read_or_create_key(Some("not a key".to_string()));
    assert!(must_save);
}

#[test]
fn secret_key_text_round_trip() {
    let bytes = [5u8; 32];
    let text = fastn_id52::SecretKey::from_bytes(&bytes).to_string();
    assert_eq!(text.len(), 64);
    assert_eq!(load_secret_key(Some(text)), Some(bytes));
    assert_eq!(load_secret_key(Some("zz".repeat(32))), None);
    assert_eq!(load_secret_key(Some("short".to_string())), None);
    assert_eq!(load_secret_key(None), None);
}
