use fastn_p2p::cli::daemon::protocol_trait::{get_available_protocols, resolve_protocol, BuiltinProtocol};
use fastn_p2p::cli::daemon::protocols::echo::{echo_handler, EchoProtocol};
use fastn_p2p::cli::daemon::protocols::shell::{
    execute_command, execute_command_at, shell_stream_handler, stream_output_at, ShellCommand, ShellError,
    ShellProtocol,
};
use fastn_p2p::cli::daemon::test_protocols::{self, EchoError, EchoRequest, ECHO_PROTOCOL, SHELL_PROTOCOL};

#[test]
fn test_echo_handler() {
    let request = EchoRequest { message: "Hello World".to_string() };

    let response = echo_handler(request).unwrap();
    assert_eq!(response.echoed, "Echo: Hello World");
}

#[test]
fn test_echo_handler_empty_message() {
    let request = EchoRequest { message: "".to_string() };

    let result = echo_handler(request);
    assert!(result.is_err());
    assert!(result.unwrap_err().to_string().contains("empty"));
}

#[test]
fn test_whoami_command() {
    let command = ShellCommand { command: "whoami".to_string(), args: vec![] };

    let response = execute_command(command).unwrap();
    assert_eq!(response.exit_code, 0);
    assert_eq!(response.stdout, "daemon_user\n");
}

#[test]
fn test_disallowed_command() {
    let command = ShellCommand { command: "rm".to_string(), args: vec!["-rf".to_string(), "/".to_string()] };

    let result = execute_command(command);
    assert!(result.is_err());
    assert!(matches!(result.unwrap_err(), ShellError::CommandNotAllowed { .. }));
}

#[test]
fn test_echo_command() {
    let command = ShellCommand { command: "echo".to_string(), args: vec!["Hello".to_string(), "World".to_string()] };

    let response = execute_command(command).unwrap();
    assert_eq!(response.exit_code, 0);
    assert_eq!(response.stdout, "Hello World\n");
}

#[test]
fn echo_rejects_message_over_one_thousand_bytes() {
    let ok = echo_handler(EchoRequest { message: "a".repeat(1000) }).unwrap();
    assert_eq!(ok.echoed.len(), 1006);
    let err = echo_handler(EchoRequest { message: "a".repeat(1001) }).unwrap_err();
    assert_eq!(err.to_string(), "Invalid message: Message too long (max 1000 chars)");
}

#[test]
fn echo_limit_counts_utf8_bytes() {
    // 334 three-byte characters are 1002 bytes, although only 334 characters.
    let err = echo_handler(EchoRequest { message: "€".repeat(334) }).unwrap_err();
    assert!(matches!(err, EchoError::InvalidMessage(ref m) if m == "Message too long (max 1000 chars)"));
    // 333 of them are 999 bytes.
    assert!(echo_handler(EchoRequest { message: "€".repeat(333) }).is_ok());
    // 500 two-byte characters are exactly 1000 bytes.
    assert!(echo_handler(EchoRequest { message: "é".repeat(500) }).is_ok());
}

#[test]
fn empty_echo_error_message() {
    let err = echo_handler(EchoRequest { message: String::new() }).unwrap_err();
    assert_eq!(err.to_string(), "Invalid message: Message cannot be empty");
}

#[test]
fn test_protocol_echo_has_no_length_limit() {
    let long = "x".repeat(5000);
    let resp = test_protocols::echo_handler(EchoRequest { message: long.clone() }).unwrap();
    assert_eq!(resp.echoed, format!("Echo: {long}"));
    let err = test_protocols::echo_handler(EchoRequest { message: String::new() }).unwrap_err();
    assert_eq!(err.to_string(), "Invalid message: Message cannot be empty");
}

#[test]
fn shell_fixed_outputs() {
    let run = |c: &str| execute_command(ShellCommand { command: c.to_string(), args: vec![] }).unwrap();
    assert_eq!(run("pwd").stdout, "/tmp/fastn-daemon\n");
    assert_eq!(run("ls").stdout, "file1.txt\nfile2.txt\ndir1/\n");
    assert_eq!(run("echo").stdout, "\n");
    let whoami = run("whoami");
    assert_eq!(whoami.stderr, "");
}

#[test]
fn shell_date_uses_given_time() {
    let cmd = ShellCommand { command: "date".to_string(), args: vec![] };
    let resp = execute_command_at(cmd, "2024-01-02T03:04:05+00:00").unwrap();
    assert_eq!(resp.stdout, "2024-01-02T03:04:05+00:00\n");
    assert_eq!(resp.exit_code, 0);
}

#[test]
fn shell_date_reads_the_clock() {
    let resp = execute_command(ShellCommand { command: "date".to_string(), args: vec![] }).unwrap();
    assert!(resp.stdout.ends_with("+00:00\n"));
    assert!(resp.stdout.len() >= 26);
    assert!(shell_stream_handler(ShellCommand { command: "date".to_string(), args: vec![] }).unwrap().ends_with("+00:00"));
    // An RFC 3339 time starts with a four-digit year and a dash.
    assert_eq!(&resp.stdout[4..5], "-");
    assert!(resp.stdout.len() > 20);
}

#[test]
fn shell_refusal_names_the_command() {
    let err = execute_command(ShellCommand { command: "cat".to_string(), args: vec!["/etc/passwd".to_string()] })
        .unwrap_err();
    assert_eq!(err.to_string(), "Command not allowed: cat");
    assert_eq!(ShellError::Timeout.to_string(), "Timeout executing command");
    assert_eq!(
        ShellError::ExecutionFailed { message: "boom".to_string() }.to_string(),
        "Command execution failed: boom"
    );
}

#[test]
fn shell_stream_outputs() {
    let cmd = ShellCommand { command: "echo".to_string(), args: vec!["a".to_string(), "b".to_string()] };
    assert_eq!(stream_output_at(&cmd, "now").unwrap(), "a b");
    let ls = ShellCommand { command: "ls".to_string(), args: vec![] };
    assert_eq!(shell_stream_handler(ls).unwrap(), "file1.txt\nfile2.txt\ndir1/");
    let date = ShellCommand { command: "date".to_string(), args: vec![] };
    assert_eq!(stream_output_at(&date, "T").unwrap(), "T");
    let bad = ShellCommand { command: "sh".to_string(), args: vec![] };
    assert!(matches!(shell_stream_handler(bad), Err(ShellError::CommandNotAllowed { ref command }) if command == "sh"));
}

#[test]
fn available_protocols_and_dispatch() {
    assert_eq!(get_available_protocols(), vec!["Echo", "Shell"]);
    assert_eq!(EchoProtocol::NAME, ECHO_PROTOCOL);
    assert_eq!(ShellProtocol::NAME, SHELL_PROTOCOL);
    for name in get_available_protocols() {
        assert!(resolve_protocol(name).is_ok());
    }
    assert_eq!(resolve_protocol("Echo").unwrap(), BuiltinProtocol::Echo);
    assert_eq!(resolve_protocol("Shell").unwrap(), BuiltinProtocol::Shell);
    assert_eq!(resolve_protocol("Mail").unwrap_err(), "Unknown protocol: Mail");
    assert_eq!(resolve_protocol("echo").unwrap_err(), "Unknown protocol: echo");
}
