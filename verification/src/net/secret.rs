//! The node's own key, kept in the current directory.

use vstd::prelude::*;
use crate::keys::{generate_secret_bytes, id52_of_secret, load_secret_key, secret_bytes_id52, stored_key_text};

verus! {

/// The node's key (its 32 secret bytes) and the key's ID52, given the text
/// of its key file (`None` when it is missing or unreadable): the stored key
/// when the text denotes one, otherwise a fresh key that the caller must
/// save.  The last component says whether the key has to be saved.
pub fn read_or_create_key(key_file: Option<String>) -> (r: (String, [u8; 32], bool))
    ensures
        r.0@ == id52_of_secret(r.1@),
        r.0@.len() == 52,
        r.2 == (stored_key_text(key_file.deep_view()) is None),
        stored_key_text(key_file.deep_view()) matches Some(b) ==> r.1@ == b,
{
    let (key, loaded) = match load_secret_key(key_file) {
        Some(bytes) => (bytes, true),
        None => (generate_secret_bytes(), false),
    };
    let id52 = secret_bytes_id52(&key);
    (id52, key, !loaded)
}

} // verus!
