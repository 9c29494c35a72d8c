//! Calls to a peer through the local daemon.
//!
//! Before anything is sent, the daemon's control socket must exist, the peer
//! ID must parse, and the request read from standard input must be one JSON
//! value once trimmed.  The caller sends the request over the socket.

use vstd::prelude::*;
use crate::json::{json_syntax_error, json_value_error};
use crate::keys::{id52_error, parse_public_key};
use crate::text::{chars_of, owned, path_join, push_str, string_from_chars, trim, trim_chars};
use super::status::control_socket_path;

verus! {

/// How `call` tells the user to start the daemon.
pub const CALL_START_HINT: &'static str = "fastn-p2p daemon";

/// How `call_with_args` tells the user to start the daemon.
pub const CALL_WITH_ARGS_START_HINT: &'static str = "request_response run";

/// The identity a call is sent from when none is named.
pub const DEFAULT_IDENTITY: &'static str = "alice";

/// The message when the daemon's control socket is missing.
pub open spec fn daemon_not_running_message(socket_path: Seq<char>, start_hint: Seq<char>) -> Seq<char> {
    "Daemon not running. Socket not found: "@ + socket_path + ". Start with: "@ + start_hint
}

/// The message for a peer ID that does not parse.
pub open spec fn invalid_peer_message(peer: Seq<char>, error: Seq<char>) -> Seq<char> {
    "Invalid peer ID '"@ + peer + "': "@ + error
}

/// The identity a call is sent from.
pub open spec fn sending_identity(as_identity: Option<Seq<char>>) -> Seq<char> {
    match as_identity {
        Some(i) => i,
        None => "alice"@,
    }
}

/// Where a call goes: the daemon's socket, the sending identity and the peer.
pub struct CallTarget {
    pub socket_path: String,
    pub from_identity: String,
    pub to_peer: fastn_id52::PublicKey,
}

/// Checks where a call goes, given whether the daemon's control socket
/// exists: the daemon must be running and the peer ID must parse.
pub fn call_target(
    fastn_home: &str,
    socket_exists: bool,
    start_hint: &str,
    peer_id52: &str,
    as_identity: Option<String>,
) -> (r: Result<CallTarget, String>)
    ensures
        !socket_exists ==> (r matches Err(m) && m@ == daemon_not_running_message(
            path_join(fastn_home@, "control.sock"@),
            start_hint@,
        )),
        socket_exists ==> match id52_error(peer_id52@) {
            Some(e) => r matches Err(m) && m@ == invalid_peer_message(peer_id52@, e),
            None => r matches Ok(t) && t.socket_path@ == path_join(fastn_home@, "control.sock"@)
                && t.from_identity@ == sending_identity(as_identity.deep_view()),
        },
{
    let socket_path = control_socket_path(fastn_home);
    if !socket_exists {
        let mut m = owned("Daemon not running. Socket not found: ");
        push_str(&mut m, socket_path.as_str());
        push_str(&mut m, ". Start with: ");
        push_str(&mut m, start_hint);
        assert(m@ =~= daemon_not_running_message(socket_path@, start_hint@));
        return Err(m);
    }
    let from_identity = match as_identity {
        Some(identity) => identity,
        None => owned("alice"),
    };
    match parse_public_key(peer_id52) {
        Ok(to_peer) => Ok(CallTarget { socket_path, from_identity, to_peer }),
        Err(e) => {
            let mut m = owned("Invalid peer ID '");
            push_str(&mut m, peer_id52);
            push_str(&mut m, "': ");
            push_str(&mut m, e.as_str());
            assert(m@ =~= invalid_peer_message(peer_id52@, e@));
            Err(m)
        },
    }
}

/// The request a call sends, from what was read on standard input: the
/// trimmed input, which must not be empty and must be one JSON value.
pub open spec fn call_request_spec(input: Seq<char>) -> Result<Seq<char>, Seq<char>> {
    let t = trim(input);
    if t.len() == 0 {
        Err("No JSON input provided on stdin"@)
    } else {
        match json_value_error(t) {
            Some(e) => Err(e),
            None => Ok(t),
        }
    }
}

/// The request a call sends, from what was read on standard input.
pub fn call_request(stdin_input: &str) -> (r: Result<String, String>)
    ensures
        match r {
            Ok(t) => call_request_spec(stdin_input@) == Ok::<Seq<char>, Seq<char>>(t@),
            Err(m) => call_request_spec(stdin_input@) == Err::<Seq<char>, Seq<char>>(m@),
        },
{
    let chars = chars_of(stdin_input);
    let trimmed = trim_chars(&chars);
    if trimmed.len() == 0 {
        return Err(owned("No JSON input provided on stdin"));
    }
    let text = string_from_chars(trimmed.as_slice());
    match json_syntax_error(text.as_str()) {
        Some(e) => Err(e),
        None => Ok(text),
    }
}

} // verus!
