use fastn_p2p::malai::http_bridge::{parse_http_head, parse_http_head_text, BridgeError, HttpProtocol};
use fastn_p2p::malai::protocol::HttpError;
use fastn_p2p::malai::utils::{get_or_generate_key, parse_host_port, parse_u16};

fn header<'a>(req: &'a fastn_p2p::malai::http_bridge::HttpRequest, name: &str) -> Option<&'a str> {
    req.headers.iter().find(|(k, _)| k == name).map(|(_, v)| v.as_str())
}

#[test]
fn host_and_port_parse() {
    let args = vec!["localhost".to_string(), "8080".to_string()];
    assert_eq!(parse_host_port(&args).unwrap(), ("localhost".to_string(), 8080));
    let plus = vec!["h".to_string(), "+65535".to_string(), "extra".to_string()];
    assert_eq!(parse_host_port(&plus).unwrap(), ("h".to_string(), 65535));
}

#[test]
fn host_and_port_errors() {
    assert_eq!(parse_host_port(&["only".to_string()]).unwrap_err(), "Usage: <host> <port>");
    assert_eq!(parse_host_port(&[]).unwrap_err(), "Usage: <host> <port>");
    let big = vec!["h".to_string(), "65536".to_string()];
    assert_eq!(parse_host_port(&big).unwrap_err(), "Invalid port: 65536");
    let word = vec!["h".to_string(), "http".to_string()];
    assert_eq!(parse_host_port(&word).unwrap_err(), "Invalid port: http");
}

#[test]
fn port_parsing_matches_std() {
    for s in ["0", "80", "00080", "+1", "65535", "65536", "", "+", "-1", "-0", " 1", "1 ", "1_000", "99999999999", "+-1"] {
        assert_eq!(parse_u16(s), s.parse::<u16>().ok(), "input {s:?}");
    }
}

#[test]
fn generated_key_is_returned() {
    let key = get_or_generate_key().unwrap();
    assert_eq!(key.id52().len(), 52);
}

#[test]
fn request_head_parses() {
    let raw = b"GET /index.html HTTP/1.1\r\nHost: example.com\r\nAccept: */*\r\n\r\nbody: ignored\r\n";
    let req = parse_http_head(raw).unwrap();
    assert_eq!(req.method, "GET");
    assert_eq!(req.path, "/index.html");
    assert_eq!(req.version, "HTTP/1.1");
    assert_eq!(req.headers.len(), 2);
    assert_eq!(header(&req, "Host"), Some("example.com"));
    assert_eq!(header(&req, "Accept"), Some("*/*"));
    assert_eq!(header(&req, "body"), None);
}

#[test]
fn later_header_replaces_earlier() {
    let req = parse_http_head_text("POST / HTTP/1.0\nX-A: 1\nX-B: 2\nX-A: 3\nmalformed line\n").unwrap();
    assert_eq!(req.headers.len(), 2);
    assert_eq!(header(&req, "X-A"), Some("3"));
    assert_eq!(header(&req, "X-B"), Some("2"));
}

#[test]
fn header_splits_at_first_colon_space() {
    let req = parse_http_head_text("GET / HTTP/1.1\nX-Time: 12: 30\nNoSpace:value\n").unwrap();
    assert_eq!(header(&req, "X-Time"), Some("12: 30"));
    assert_eq!(req.headers.len(), 1);
}

#[test]
fn request_line_needs_three_words() {
    assert!(parse_http_head(b"").is_none());
    assert!(parse_http_head(b"GET /\r\n\r\n").is_none());
    assert!(parse_http_head(b"\r\nGET / HTTP/1.1\r\n").is_none());
    let req = parse_http_head_text("  GET   /a   HTTP/2   extra\n").unwrap();
    assert_eq!((req.method.as_str(), req.path.as_str(), req.version.as_str()), ("GET", "/a", "HTTP/2"));
}

#[test]
fn invalid_utf8_is_replaced() {
    let req = parse_http_head(b"GET /\xff HTTP/1.1\r\n\r\n").unwrap();
    assert_eq!(req.path, "/\u{FFFD}");
}

#[test]
fn error_messages() {
    assert_eq!(BridgeError::Http("x".to_string()).to_string(), "HTTP error: x");
    assert_eq!(BridgeError::P2P("y".to_string()).to_string(), "P2P error: y");
    assert_eq!(BridgeError::Io("z".to_string()).to_string(), "IO error: z");
    assert_eq!(HttpError::UpstreamConnection("a".to_string()).to_string(), "Failed to connect to upstream: a");
    assert_eq!(HttpError::ParseError("b".to_string()).to_string(), "Failed to parse HTTP: b");
    assert_eq!(HttpError::Io("c".to_string()).to_string(), "IO error: c");
    assert_eq!(HttpError::P2p { source: "d".to_string() }.to_string(), "P2P error: d");
    assert_eq!(HttpProtocol::Forward, HttpProtocol::Forward);
}
