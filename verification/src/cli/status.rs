//! Daemon status: where the daemon's control socket and lock file are, and
//! how their presence is reported.

use vstd::prelude::*;
use crate::text::{join_path, owned, path_join};

verus! {

/// The daemon's control socket under `fastn_home`.
pub fn control_socket_path(fastn_home: &str) -> (p: String)
    ensures
        p@ == path_join(fastn_home@, "control.sock"@),
{
    join_path(fastn_home, "control.sock")
}

/// The daemon's lock file under `fastn_home`.
pub fn lock_file_path(fastn_home: &str) -> (p: String)
    ensures
        p@ == path_join(fastn_home@, "lock.file"@),
{
    join_path(fastn_home, "lock.file")
}

/// How the daemon's state is reported, from whether its control socket and
/// its lock file exist.
pub open spec fn daemon_status_text(socket_exists: bool, lock_exists: bool) -> Seq<char> {
    if socket_exists && lock_exists {
        "🟢 Running (control socket + lock file present)"@
    } else if lock_exists {
        "🟡 Lock file exists but no control socket (starting up or crashed?)"@
    } else {
        "🔴 Not running"@
    }
}

/// Reports whether the daemon is running, from whether its control socket
/// and its lock file exist.
pub fn check_daemon_status(socket_exists: bool, lock_exists: bool) -> (s: String)
    ensures
        s@ == daemon_status_text(socket_exists, lock_exists),
{
    if socket_exists && lock_exists {
        owned("🟢 Running (control socket + lock file present)")
    } else if lock_exists {
        owned("🟡 Lock file exists but no control socket (starting up or crashed?)")
    } else {
        owned("🔴 Not running")
    }
}

/// The mark and word shown for an identity that is online or offline.
pub open spec fn identity_marks(online: bool) -> (Seq<char>, Seq<char>) {
    if online {
        ("🟢"@, "ONLINE"@)
    } else {
        ("🔴"@, "OFFLINE"@)
    }
}

/// The mark and word shown for an identity that is online or offline.
pub fn identity_status_marks(online: bool) -> (r: (&'static str, &'static str))
    ensures
        (r.0@, r.1@) == identity_marks(online),
{
    if online {
        ("🟢", "ONLINE")
    } else {
        ("🔴", "OFFLINE")
    }
}

/// The mark shown for a protocol of an online or offline identity.
pub open spec fn protocol_mark(online: bool) -> Seq<char> {
    if online {
        "🟢"@
    } else {
        "⏸️"@
    }
}

/// The mark shown for a protocol of an online or offline identity.
pub fn protocol_status_mark(online: bool) -> (r: &'static str)
    ensures
        r@ == protocol_mark(online),
{
    if online {
        "🟢"
    } else {
        "⏸️"
    }
}

} // verus!
