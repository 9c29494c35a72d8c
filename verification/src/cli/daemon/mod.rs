//! The daemon: what it reports about the identities it finds at start-up,
//! its own key, and its built-in protocols.

pub mod protocol_trait;
pub mod protocols;
pub mod test_protocols;

use vstd::prelude::*;
use crate::keys::{decode_key_file, generate_secret_bytes, stored_key_bytes};
use crate::server::daemon::{IdentityConfig, IdentitySpec};
use crate::server::serve_all::identities_view;
use crate::text::{join_path, path_join};

verus! {

/// How many of the identities are online.
pub open spec fn online_count(ids: Seq<IdentitySpec>) -> nat
    decreases ids.len(),
{
    if ids.len() == 0 {
        0
    } else {
        online_count(ids.drop_last()) + if ids.last().online {
            1nat
        } else {
            0nat
        }
    }
}

/// How many protocol bindings the online identities have in all (the
/// services the daemon starts).
pub open spec fn online_protocol_count(ids: Seq<IdentitySpec>) -> nat
    decreases ids.len(),
{
    if ids.len() == 0 {
        0
    } else {
        online_protocol_count(ids.drop_last()) + if ids.last().online {
            ids.last().protocols.len()
        } else {
            0nat
        }
    }
}

/// What the daemon reports about the identities it loaded.
pub struct IdentitySummary {
    /// All identities.
    pub total: usize,
    /// The online ones.
    pub online: usize,
    /// The protocol bindings of the online ones.
    pub online_protocols: usize,
}

proof fn lemma_online_count_bound(ids: Seq<IdentitySpec>)
    ensures
        online_count(ids) <= ids.len(),
    decreases ids.len(),
{
    if ids.len() > 0 {
        lemma_online_count_bound(ids.drop_last());
    }
}

proof fn lemma_online_protocol_count_grows(ids: Seq<IdentitySpec>, k: int)
    requires
        0 <= k <= ids.len(),
    ensures
        online_protocol_count(ids.take(k)) <= online_protocol_count(ids),
    decreases ids.len() - k,
{
    if k < ids.len() {
        lemma_online_protocol_count_grows(ids, k + 1);
        assert(ids.take(k + 1).drop_last() =~= ids.take(k));
    } else {
        assert(ids.take(k) =~= ids);
    }
}

/// Counts the identities, the online ones and the protocol bindings of the
/// online ones.
pub fn summarize_identities(identities: &Vec<IdentityConfig>) -> (s: IdentitySummary)
    requires
        online_protocol_count(identities_view(identities@)) <= usize::MAX,
    ensures
        s.total == identities@.len(),
        s.online == online_count(identities_view(identities@)),
        s.online_protocols == online_protocol_count(identities_view(identities@)),
{
    let ghost iv = identities_view(identities@);
    let mut online: usize = 0;
    let mut online_protocols: usize = 0;
    let mut i: usize = 0;
    while i < identities.len()
        invariant
            i <= identities.len(),
            iv == identities_view(identities@),
            online_protocol_count(iv) <= usize::MAX,
            online == online_count(iv.take(i as int)),
            online_protocols == online_protocol_count(iv.take(i as int)),
        decreases identities.len() - i,
    {
        proof {
            assert(iv.take(i + 1).drop_last() =~= iv.take(i as int));
            assert(iv.take(i + 1).last() == identities@[i as int]@);
            lemma_online_count_bound(iv.take(i as int));
            lemma_online_protocol_count_grows(iv, i + 1);
        }
        let id = &identities[i];
        if id.online {
            online = online + 1;
            online_protocols = online_protocols + id.protocols.len();
        }
        i = i + 1;
    }
    assert(iv.take(identities.len() as int) =~= iv);
    IdentitySummary { total: identities.len(), online, online_protocols }
}

/// The daemon's key file under `fastn_home`.
pub fn daemon_key_path(fastn_home: &str) -> (p: String)
    ensures
        p@ == path_join(fastn_home@, "daemon.key"@),
{
    join_path(fastn_home, "daemon.key")
}

/// The daemon's key (its 32 secret bytes), given the contents of its key
/// file (`None` when it is missing or unreadable): the stored key when the
/// file holds exactly 32 bytes, a freshly generated one otherwise, which the
/// caller then tries to save.  Also says whether the key was loaded.
pub fn get_or_create_daemon_key(key_file: Option<Vec<u8>>) -> (r: ([u8; 32], bool))
    ensures
        r.1 == (stored_key_bytes(key_file.deep_view()) is Some),
        stored_key_bytes(key_file.deep_view()) matches Some(b) ==> r.0@ == b,
{
    match decode_key_file(key_file) {
        Some(bytes) => (bytes, true),
        None => (generate_secret_bytes(), false),
    }
}

} // verus!
