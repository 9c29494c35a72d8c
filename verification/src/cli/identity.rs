//! Identity management commands: creating an identity, adding and removing
//! protocol bindings, switching an identity online or offline, and finding
//! the key files of the older flat layout.
//!
//! The commands read and write files; what they decide from what they find
//! is here, and the caller performs the file operations in between.

use vstd::prelude::*;
use crate::json::{json_syntax_error, json_value_error};
use crate::keys::{generate_secret_bytes, secret_text, stored_key_text};
use crate::server::daemon::{
    alias_dir_listed, discovered_bindings, lemma_listed_binding_discovered, BindingSpec, ProtocolDirInfo,
    IdentityConfig, IdentitySpec, has_binding_spec, identities_dir, identity_dir_spec, without_binding,
};
use crate::text::{chars_of, concat, join_path, owned, path_join, push_str, string_from_chars, str_eq};

verus! {

/// Directory of identity `alias` under `fastn_home`.
pub open spec fn identity_path(fastn_home: Seq<char>, alias: Seq<char>) -> Seq<char> {
    identity_dir_spec(path_join(fastn_home, "identities"@), alias)
}

/// Directory of identity `alias` under `fastn_home`.
pub fn identity_dir_path(fastn_home: &str, alias: &str) -> (p: String)
    ensures
        p@ == identity_path(fastn_home@, alias@),
{
    let dir = identities_dir(fastn_home);
    join_path(dir.as_str(), alias)
}

/// The message for creating an identity that already exists.
pub open spec fn identity_exists_message(alias: Seq<char>, dir: Seq<char>) -> Seq<char> {
    "Identity '"@ + alias + "' already exists at: "@ + dir
}

/// A freshly created identity: where it goes, its new key and the text its
/// key file holds.
pub struct NewIdentity {
    pub identity_dir: String,
    pub secret_key: [u8; 32],
    pub key_text: String,
}

/// Creates identity `alias` under `fastn_home`, given whether its directory
/// already exists: an error naming the directory when it does, otherwise a
/// fresh key for the directory.
pub fn create_identity(fastn_home: &str, alias: &str, identity_dir_exists: bool) -> (r: Result<
    NewIdentity,
    String,
>)
    ensures
        r is Err <==> identity_dir_exists,
        r matches Ok(n) ==> n.identity_dir@ == identity_path(fastn_home@, alias@) && stored_key_text(Some(n.key_text@))
            == Some(n.secret_key@),
        r matches Err(m) ==> m@ == identity_exists_message(alias@, identity_path(fastn_home@, alias@)),
{
    let identity_dir = identity_dir_path(fastn_home, alias);
    if identity_dir_exists {
        let mut m = owned("Identity '");
        push_str(&mut m, alias);
        push_str(&mut m, "' already exists at: ");
        push_str(&mut m, identity_dir.as_str());
        assert(m@ =~= identity_exists_message(alias@, identity_path(fastn_home@, alias@)));
        return Err(m);
    }
    let secret_key = generate_secret_bytes();
    let key_text = secret_text(&secret_key);
    Ok(NewIdentity { identity_dir, secret_key, key_text })
}

/// Where the configuration of a new protocol binding goes.
#[derive(Debug)]
pub struct BindingFiles {
    /// `FASTN_HOME/identities`.
    pub identities_dir: String,
    /// `FASTN_HOME/identities/<identity>/protocols/<protocol>/<bind_alias>`.
    pub protocol_config_path: String,
    /// The configuration file: `config.json` in that directory.
    pub config_file: String,
}

/// Directory of the configuration of `protocol` bound as `bind_alias` for
/// `identity`: `identities/<identity>/protocols/<protocol>/<bind_alias>`,
/// where the identity's bindings are discovered when it is loaded.
pub open spec fn protocol_config_dir(
    fastn_home: Seq<char>,
    identity: Seq<char>,
    protocol: Seq<char>,
    bind_alias: Seq<char>,
) -> Seq<char> {
    path_join(path_join(path_join(identity_path(fastn_home, identity), "protocols"@), protocol), bind_alias)
}

/// The configuration file of `protocol` under `bind_alias` for `identity`.
pub open spec fn protocol_config_file(
    fastn_home: Seq<char>,
    identity: Seq<char>,
    protocol: Seq<char>,
    bind_alias: Seq<char>,
) -> Seq<char> {
    path_join(protocol_config_dir(fastn_home, identity, protocol, bind_alias), "config.json"@)
}

/// The message for a configuration that is not JSON.
pub open spec fn invalid_config_message(error: Seq<char>) -> Seq<char> {
    "Invalid JSON config: "@ + error
}

/// The files of a new binding, given the error (if any) of reading its
/// configuration as JSON: that error is reported, otherwise the paths.
pub fn binding_files(
    fastn_home: &str,
    identity: &str,
    protocol: &str,
    bind_alias: &str,
    config_error: Option<String>,
) -> (r: Result<BindingFiles, String>)
    ensures
        match config_error {
            Some(e) => r matches Err(m) && m@ == invalid_config_message(e@),
            None => r matches Ok(f) && f.identities_dir@ == path_join(fastn_home@, "identities"@)
                && f.protocol_config_path@ == protocol_config_dir(fastn_home@, identity@, protocol@, bind_alias@)
                && f.config_file@ == protocol_config_file(fastn_home@, identity@, protocol@, bind_alias@),
        },
{
    if let Some(e) = config_error {
        return Err(concat("Invalid JSON config: ", e.as_str()));
    }
    let dir = identities_dir(fastn_home);
    let identity_dir = join_path(dir.as_str(), identity);
    let protocols_dir = join_path(identity_dir.as_str(), "protocols");
    let protocol_dir = join_path(protocols_dir.as_str(), protocol);
    let protocol_config_path = join_path(protocol_dir.as_str(), bind_alias);
    let config_file = join_path(protocol_config_path.as_str(), "config.json");
    Ok(BindingFiles { identities_dir: dir, protocol_config_path, config_file })
}

/// The files of a new binding of `protocol` under `bind_alias` for
/// `identity`, configured by `config_json`, which must be one JSON value.
pub fn add_protocol_files(
    fastn_home: &str,
    identity: &str,
    protocol: &str,
    bind_alias: &str,
    config_json: &str,
) -> (r: Result<BindingFiles, String>)
    ensures
        match json_value_error(config_json@) {
            Some(e) => r matches Err(m) && m@ == invalid_config_message(e),
            None => r matches Ok(f) && f.protocol_config_path@ == protocol_config_dir(
                fastn_home@,
                identity@,
                protocol@,
                bind_alias@,
            ) && f.config_file@ == protocol_config_file(fastn_home@, identity@, protocol@, bind_alias@),
        },
{
    let config_error = json_syntax_error(config_json);
    binding_files(fastn_home, identity, protocol, bind_alias, config_error)
}

/// A binding added with [`add_protocol_files`] is found when the identity is
/// loaded again: its configuration goes to `config.json` in
/// `protocols/<protocol>/<bind_alias>`, and once that file is written the
/// listing of the identity's `protocols/` directory holds the directory
/// `protocol` with the alias directory `bind_alias` holding `config.json`,
/// from which discovery yields the binding.
pub proof fn lemma_added_binding_is_discovered(
    fastn_home: Seq<char>,
    identity: Seq<char>,
    protocol: Seq<char>,
    bind_alias: Seq<char>,
    dirs: Seq<ProtocolDirInfo>,
    i: int,
    j: int,
)
    requires
        0 <= i < dirs.len(),
        dirs[i].entry.is_dir,
        dirs[i].entry.name.deep_view() == Some(protocol),
        alias_dir_listed(dirs[i].aliases@, j, bind_alias),
        dirs[i].aliases@[j].entry.path@ == protocol_config_dir(fastn_home, identity, protocol, bind_alias),
    ensures
        protocol_config_file(fastn_home, identity, protocol, bind_alias) == path_join(
            protocol_config_dir(fastn_home, identity, protocol, bind_alias),
            "config.json"@,
        ),
        discovered_bindings(dirs).contains(
            BindingSpec {
                protocol,
                bind_alias,
                config_path: protocol_config_dir(fastn_home, identity, protocol, bind_alias),
            },
        ),
{
    lemma_listed_binding_discovered(dirs, i, j, protocol, bind_alias);
}

/// The message for an identity that could not be loaded.
pub open spec fn identity_not_found_message(identity: Seq<char>, error: Seq<char>) -> Seq<char> {
    "Identity '"@ + identity + "' not found: "@ + error
}

/// The message for an identity that could not be loaded, with the loader's error.
pub fn identity_not_found(identity: &str, error: &str) -> (m: String)
    ensures
        m@ == identity_not_found_message(identity@, error@),
{
    let mut m = owned("Identity '");
    push_str(&mut m, identity);
    push_str(&mut m, "' not found: ");
    push_str(&mut m, error);
    assert(m@ =~= identity_not_found_message(identity@, error@));
    m
}

/// The message for a binding that already exists.
pub open spec fn binding_exists_message(protocol: Seq<char>, bind_alias: Seq<char>, identity: Seq<char>) -> Seq<
    char,
> {
    "Protocol binding '"@ + protocol + "' as '"@ + bind_alias + "' already exists for identity '"@ + identity
        + "'"@
}

/// The message for a binding that does not exist.
pub open spec fn binding_missing_message(protocol: Seq<char>, bind_alias: Seq<char>, identity: Seq<char>) -> Seq<
    char,
> {
    "Protocol binding '"@ + protocol + "' as '"@ + bind_alias + "' not found for identity '"@ + identity + "'"@
}

fn binding_message(protocol: &str, bind_alias: &str, tail: &str, identity: &str) -> (m: String)
    ensures
        m@ == "Protocol binding '"@ + protocol@ + "' as '"@ + bind_alias@ + tail@ + identity@ + "'"@,
{
    let mut m = owned("Protocol binding '");
    push_str(&mut m, protocol);
    push_str(&mut m, "' as '");
    push_str(&mut m, bind_alias);
    push_str(&mut m, tail);
    push_str(&mut m, identity);
    push_str(&mut m, "'");
    assert(m@ =~= "Protocol binding '"@ + protocol@ + "' as '"@ + bind_alias@ + tail@ + identity@ + "'"@);
    m
}

/// Checks that `config` does not bind `protocol` under `bind_alias` yet.
pub fn check_new_binding(config: &IdentityConfig, identity: &str, protocol: &str, bind_alias: &str) -> (r: Result<
    (),
    String,
>)
    ensures
        r is Err <==> has_binding_spec(config@.protocols, protocol@, bind_alias@),
        r matches Err(m) ==> m@ == binding_exists_message(protocol@, bind_alias@, identity@),
{
    if config.has_binding(protocol, bind_alias) {
        return Err(binding_message(protocol, bind_alias, "' already exists for identity '", identity));
    }
    Ok(())
}

/// Removes the binding of `protocol` under `bind_alias` from `config`, or
/// reports that there is none.
pub fn remove_protocol_binding(config: &mut IdentityConfig, identity: &str, protocol: &str, bind_alias: &str) -> (r:
    Result<(), String>)
    ensures
        final(config)@ == (IdentitySpec {
            protocols: without_binding(old(config)@.protocols, protocol@, bind_alias@),
            ..old(config)@
        }),
        r is Ok <==> has_binding_spec(old(config)@.protocols, protocol@, bind_alias@),
        r matches Err(m) ==> m@ == binding_missing_message(protocol@, bind_alias@, identity@),
{
    if config.remove_binding(protocol, bind_alias) {
        Ok(())
    } else {
        Err(binding_message(protocol, bind_alias, "' not found for identity '", identity))
    }
}

/// The identity with its online state set to `online`.
pub open spec fn with_online(c: IdentitySpec, online: bool) -> IdentitySpec {
    IdentitySpec { online, ..c }
}

/// Sets the identity online or offline; says whether that changed it (the
/// caller saves the identity only then).
pub fn set_identity_state(config: &mut IdentityConfig, online: bool) -> (changed: bool)
    ensures
        final(config)@ == with_online(old(config)@, online),
        changed == (old(config)@.online != online),
{
    if config.online == online {
        return false;
    }
    config.online = online;
    true
}

/// Sets the identity online; says whether it was offline.
pub fn set_identity_online(config: &mut IdentityConfig) -> (changed: bool)
    ensures
        final(config)@ == with_online(old(config)@, true),
        changed == !old(config)@.online,
{
    set_identity_state(config, true)
}

/// Sets the identity offline; says whether it was online.
pub fn set_identity_offline(config: &mut IdentityConfig) -> (changed: bool)
    ensures
        final(config)@ == with_online(old(config)@, false),
        changed == old(config)@.online,
{
    set_identity_state(config, false)
}

/// Setting the same state twice changes nothing the second time.
pub proof fn lemma_set_state_idempotent(c: IdentitySpec, online: bool)
    ensures
        with_online(with_online(c, online), online) == with_online(c, online),
        with_online(c, online).online == online,
{
}

/// Switching an identity back restores it.
pub proof fn lemma_set_state_restores(c: IdentitySpec, online: bool)
    ensures
        with_online(with_online(c, online), c.online) == c,
{
}

// ---------------------------------------------------------------- key files

/// `i` is the index of the last `.` of `name`.
pub open spec fn final_dot(name: Seq<char>, i: int) -> bool {
    0 <= i < name.len() && name[i] == '.' && forall|j: int| i < j < name.len() ==> name[j] != '.'
}

/// The alias of a key file of the flat layout: the file name before its
/// extension when the extension is `private-key` (an extension is what
/// follows the last `.`, when that `.` is not the first character).
pub open spec fn key_file_alias(name: Seq<char>) -> Option<Seq<char>> {
    if exists|i: int| final_dot(name, i) {
        let i = choose|i: int| final_dot(name, i);
        if i > 0 && name.skip(i + 1) == "private-key"@ {
            Some(name.take(i))
        } else {
            None
        }
    } else {
        None
    }
}

/// A key file saved as `<alias>.private-key` is found again under `alias`,
/// for every non-empty alias.
pub proof fn lemma_key_file_alias_roundtrip(alias: Seq<char>)
    requires
        alias.len() > 0,
    ensures
        key_file_alias(alias + ".private-key"@) == Some(alias),
{
    reveal_strlit(".private-key");
    reveal_strlit("private-key");
    let name = alias + ".private-key"@;
    let i = alias.len() as int;
    assert(final_dot(name, i)) by {
        assert forall|j: int| i < j < name.len() implies name[j] != '.' by {
            assert(name[j] == ".private-key"@[j - i]);
        }
    }
    let c = choose|c: int| final_dot(name, c);
    assert(c == i) by {
        if c < i {
            assert(name[i] == '.');
        }
        if c > i {
            assert(name[c] == ".private-key"@[c - i]);
        }
    }
    assert(name.skip(i + 1) =~= "private-key"@);
    assert(name.take(i) =~= alias);
}

/// The aliases of the key files among `names`, in order.
pub open spec fn key_file_aliases_spec(names: Seq<Seq<char>>) -> Seq<Seq<char>>
    decreases names.len(),
{
    if names.len() == 0 {
        Seq::empty()
    } else {
        let rest = key_file_aliases_spec(names.drop_last());
        match key_file_alias(names.last()) {
            Some(a) => rest.push(a),
            None => rest,
        }
    }
}

/// The alias of the key file `name`, if it is one.
pub fn key_file_alias_of(name: &str) -> (r: Option<String>)
    ensures
        r.deep_view() == key_file_alias(name@),
{
    let v = chars_of(name);
    let mut i: usize = v.len();
    while i > 0 && v[i - 1] != '.'
        invariant
            i <= v.len(),
            v@ == name@,
            forall|j: int| i <= j < v.len() ==> v@[j] != '.',
        decreases i,
    {
        i = i - 1;
    }
    if i == 0 {
        assert forall|k: int| !final_dot(name@, k) by {
            if 0 <= k < name@.len() && name@[k] == '.' {
                assert(v@[k] != '.');
            }
        }
        return None;
    }
    let dot = i - 1;
    assert(final_dot(name@, dot as int));
    proof {
        let c = choose|c: int| final_dot(name@, c);
        assert(c == dot) by {
            if c < dot {
                assert(name@[dot as int] != '.');
            }
            if c > dot {
                assert(name@[c] != '.');
            }
        }
    }
    if dot == 0 {
        return None;
    }
    let mut ext: Vec<char> = Vec::new();
    let mut k: usize = i;
    while k < v.len()
        invariant
            i <= k <= v.len(),
            ext@ == v@.subrange(i as int, k as int),
        decreases v.len() - k,
    {
        ext.push(v[k]);
        k = k + 1;
        assert(ext@ =~= v@.subrange(i as int, k as int));
    }
    assert(v@.skip(i as int) =~= ext@);
    let ext_text = string_from_chars(ext.as_slice());
    if !str_eq(ext_text.as_str(), "private-key") {
        return None;
    }
    let mut stem: Vec<char> = Vec::new();
    let mut m: usize = 0;
    while m < dot
        invariant
            m <= dot < v.len(),
            stem@ == v@.take(m as int),
        decreases dot - m,
    {
        stem.push(v[m]);
        m = m + 1;
        assert(stem@ =~= v@.take(m as int));
    }
    Some(string_from_chars(stem.as_slice()))
}

/// The aliases of the key files among the file names of a directory, in order.
pub fn key_file_aliases(names: &Vec<String>) -> (out: Vec<String>)
    ensures
        out@.map_values(|a: String| a@) == key_file_aliases_spec(names@.map_values(|n: String| n@)),
{
    let ghost nv = names@.map_values(|n: String| n@);
    let mut out: Vec<String> = Vec::new();
    let mut i: usize = 0;
    while i < names.len()
        invariant
            i <= names.len(),
            nv == names@.map_values(|n: String| n@),
            out@.map_values(|a: String| a@) == key_file_aliases_spec(nv.take(i as int)),
        decreases names.len() - i,
    {
        assert(nv.take(i + 1).drop_last() =~= nv.take(i as int));
        assert(nv.take(i + 1).last() == names@[i as int]@);
        let ghost before = out@.map_values(|a: String| a@);
        match key_file_alias_of(names[i].as_str()) {
            Some(a) => {
                out.push(a);
                assert(out@.map_values(|a: String| a@) =~= before.push(out@.last()@));
            },
            None => {},
        }
        i = i + 1;
    }
    assert(nv.take(names.len() as int) =~= nv);
    out
}

} // verus!
