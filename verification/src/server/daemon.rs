//! Identities and their protocol bindings as kept under `FASTN_HOME`.
//!
//! Layout of one identity:
//!
//! ```text
//! FASTN_HOME/identities/<alias>/identity.private-key
//! FASTN_HOME/identities/<alias>/online              (present when online)
//! FASTN_HOME/identities/<alias>/protocols/<protocol>/<bind_alias>/config.json
//! ```
//!
//! An older layout keeps `identities/<alias>.private-key` beside an optional
//! `identities/<alias>.config.json`.  Paths are handled as text; reading the
//! file system is left to the caller, which hands over what it found.

use vstd::prelude::*;
use crate::keys::{secret_text, stored_key_text};
use crate::text::{concat, join_path, owned, path_join, str_eq};

verus! {

/// A protocol served by an identity under a binding alias, with the
/// directory holding its configuration.
#[derive(Debug)]
pub struct ProtocolBinding {
    pub protocol: String,
    pub bind_alias: String,
    pub config_path: String,
}

/// The mathematical value of a [`ProtocolBinding`].
pub struct BindingSpec {
    pub protocol: Seq<char>,
    pub bind_alias: Seq<char>,
    pub config_path: Seq<char>,
}

impl View for ProtocolBinding {
    type V = BindingSpec;

    open spec fn view(&self) -> BindingSpec {
        BindingSpec { protocol: self.protocol@, bind_alias: self.bind_alias@, config_path: self.config_path@ }
    }
}

impl Clone for ProtocolBinding {
    fn clone(&self) -> (r: Self)
        ensures
            r@ == self@,
    {
        ProtocolBinding {
            protocol: self.protocol.clone(),
            bind_alias: self.bind_alias.clone(),
            config_path: self.config_path.clone(),
        }
    }
}

/// The views of a sequence of bindings.
pub open spec fn bindings_view(v: Seq<ProtocolBinding>) -> Seq<BindingSpec> {
    v.map_values(|b: ProtocolBinding| b@)
}

/// Whether binding `b` is protocol `protocol` under alias `alias`.
pub open spec fn is_binding(b: BindingSpec, protocol: Seq<char>, alias: Seq<char>) -> bool {
    b.protocol == protocol && b.bind_alias == alias
}

/// The bindings other than `protocol` under `alias`, in order.
pub open spec fn without_binding(bs: Seq<BindingSpec>, protocol: Seq<char>, alias: Seq<char>) -> Seq<BindingSpec>
    decreases bs.len(),
{
    if bs.len() == 0 {
        Seq::empty()
    } else {
        let rest = without_binding(bs.drop_last(), protocol, alias);
        if is_binding(bs.last(), protocol, alias) {
            rest
        } else {
            rest.push(bs.last())
        }
    }
}

/// Whether `bs` holds `protocol` under `alias`.
pub open spec fn has_binding_spec(bs: Seq<BindingSpec>, protocol: Seq<char>, alias: Seq<char>) -> bool {
    exists|i: int| 0 <= i < bs.len() && #[trigger] is_binding(bs[i], protocol, alias)
}

/// A stored identity is online unless its configuration says otherwise.
pub fn default_online_true() -> (b: bool)
    ensures
        b,
{
    true
}

/// Identity with protocol bindings and online/offline state.
pub struct IdentityConfig {
    pub alias: String,
    /// The 32 secret bytes of the identity's key.
    pub secret_key: [u8; 32],
    pub protocols: Vec<ProtocolBinding>,
    pub online: bool,
}

/// The mathematical value of an [`IdentityConfig`].
pub struct IdentitySpec {
    pub alias: Seq<char>,
    pub secret_key: Seq<u8>,
    pub protocols: Seq<BindingSpec>,
    pub online: bool,
}

impl View for IdentityConfig {
    type V = IdentitySpec;

    open spec fn view(&self) -> IdentitySpec {
        IdentitySpec {
            alias: self.alias@,
            secret_key: self.secret_key@,
            protocols: bindings_view(self.protocols@),
            online: self.online,
        }
    }
}

/// What a configuration file of the older layout holds.
pub struct StoredIdentity {
    pub alias: String,
    pub protocols: Vec<ProtocolBinding>,
    pub online: bool,
}

/// What to do with the online marker file when saving.
#[derive(Clone, Copy, Debug, PartialEq, Eq, Structural)]
pub enum MarkerAction {
    /// Write the (empty) marker file.
    Write,
    /// Remove the existing marker file.
    Remove,
    /// Leave things as they are.
    Keep,
}

/// The file operations that saving an identity takes.
pub struct SavePlan {
    /// Directory of the identity, to be created with its parents.
    pub identity_dir: String,
    /// The text to write to the key file `identity.private-key`: present
    /// only when that file is missing.
    pub key_text: Option<String>,
    /// Path of the online marker file.
    pub marker_path: String,
    /// What to do with the marker file.
    pub marker: MarkerAction,
    /// Configuration directories to remove: those of the stored bindings
    /// that the identity no longer has.
    pub remove_dirs: Vec<String>,
}

/// Directory of identity `alias` under `identities_dir`.
pub open spec fn identity_dir_spec(identities_dir: Seq<char>, alias: Seq<char>) -> Seq<char> {
    path_join(identities_dir, alias)
}

/// The online marker action: written when online, removed when offline and present.
pub open spec fn marker_action(online: bool, marker_exists: bool) -> MarkerAction {
    if online {
        MarkerAction::Write
    } else if marker_exists {
        MarkerAction::Remove
    } else {
        MarkerAction::Keep
    }
}

/// Whether the online marker exists after `action`, given whether it existed.
pub open spec fn marker_after(action: MarkerAction, existed: bool) -> bool {
    match action {
        MarkerAction::Write => true,
        MarkerAction::Remove => false,
        MarkerAction::Keep => existed,
    }
}

/// The stored bindings that `current` no longer has, in order.
pub open spec fn dropped_bindings(stored: Seq<BindingSpec>, current: Seq<BindingSpec>) -> Seq<BindingSpec>
    decreases stored.len(),
{
    if stored.len() == 0 {
        Seq::empty()
    } else {
        let rest = dropped_bindings(stored.drop_last(), current);
        let b = stored.last();
        if has_binding_spec(current, b.protocol, b.bind_alias) {
            rest
        } else {
            rest.push(b)
        }
    }
}

/// The configuration directories of bindings.
pub open spec fn binding_dirs(bs: Seq<BindingSpec>) -> Seq<Seq<char>> {
    bs.map_values(|b: BindingSpec| b.config_path)
}

/// The bindings that discovery still lists once the directories `dirs`
/// are removed.
pub open spec fn after_removal(bs: Seq<BindingSpec>, dirs: Seq<Seq<char>>) -> Seq<BindingSpec>
    decreases bs.len(),
{
    if bs.len() == 0 {
        Seq::empty()
    } else {
        let rest = after_removal(bs.drop_last(), dirs);
        if dirs.contains(bs.last().config_path) {
            rest
        } else {
            rest.push(bs.last())
        }
    }
}

/// The bindings listed after saving an identity with bindings `current` over
/// the stored bindings `stored`.
pub open spec fn saved_bindings(stored: Seq<BindingSpec>, current: Seq<BindingSpec>) -> Seq<BindingSpec> {
    after_removal(stored, binding_dirs(dropped_bindings(stored, current)))
}

/// Each stored binding has its own configuration directory: bindings that
/// share a directory are the same protocol under the same alias.
pub open spec fn own_directories(bs: Seq<BindingSpec>) -> bool {
    forall|i: int, j: int|
        0 <= i < bs.len() && 0 <= j < bs.len() && #[trigger] bs[i].config_path == #[trigger] bs[j].config_path
            ==> bs[i].protocol == bs[j].protocol && bs[i].bind_alias == bs[j].bind_alias
}

impl IdentityConfig {
    /// A new identity with no protocols, online.
    pub fn new(alias: String, secret_key: [u8; 32]) -> (c: Self)
        ensures
            c@ == (IdentitySpec { alias: alias@, secret_key: secret_key@, protocols: Seq::empty(), online: true }),
    {
        let c = IdentityConfig { alias, secret_key, protocols: Vec::new(), online: true };
        assert(c@.protocols =~= Seq::<BindingSpec>::empty());
        c
    }

    /// The identity with one more binding: `protocol` under `bind_alias`,
    /// configured in `config_path`.
    pub fn add_protocol(self, protocol: String, bind_alias: String, config_path: String) -> (c: Self)
        ensures
            c@ == (IdentitySpec {
                protocols: self@.protocols.push(
                    BindingSpec { protocol: protocol@, bind_alias: bind_alias@, config_path: config_path@ },
                ),
                ..self@
            }),
    {
        let mut c = self;
        let ghost before = c.protocols@;
        c.protocols.push(ProtocolBinding { protocol, bind_alias, config_path });
        assert(bindings_view(c.protocols@) =~= bindings_view(before).push(
            BindingSpec { protocol: protocol@, bind_alias: bind_alias@, config_path: config_path@ },
        ));
        c
    }

    /// Whether the identity has `protocol` bound under `bind_alias`.
    pub fn has_binding(&self, protocol: &str, bind_alias: &str) -> (b: bool)
        ensures
            b == has_binding_spec(self@.protocols, protocol@, bind_alias@),
    {
        let mut i: usize = 0;
        while i < self.protocols.len()
            invariant
                i <= self.protocols.len(),
                forall|j: int| 0 <= j < i ==> !is_binding(#[trigger] self@.protocols[j], protocol@, bind_alias@),
            decreases self.protocols.len() - i,
        {
            let b = &self.protocols[i];
            if str_eq(b.protocol.as_str(), protocol) && str_eq(b.bind_alias.as_str(), bind_alias) {
                assert(is_binding(self@.protocols[i as int], protocol@, bind_alias@));
                return true;
            }
            i = i + 1;
        }
        false
    }

    /// Removes every binding of `protocol` under `bind_alias`; says whether one was removed.
    pub fn remove_binding(&mut self, protocol: &str, bind_alias: &str) -> (removed: bool)
        ensures
            final(self)@ == (IdentitySpec {
                protocols: without_binding(old(self)@.protocols, protocol@, bind_alias@),
                ..old(self)@
            }),
            removed == has_binding_spec(old(self)@.protocols, protocol@, bind_alias@),
    {
        let ghost old_view = self@;
        let mut kept: Vec<ProtocolBinding> = Vec::new();
        let mut removed = false;
        let mut i: usize = 0;
        while i < self.protocols.len()
            invariant
                i <= self.protocols.len(),
                self@ == old_view,
                bindings_view(kept@) == without_binding(old_view.protocols.take(i as int), protocol@, bind_alias@),
                removed == exists|j: int| 0 <= j < i && #[trigger] is_binding(old_view.protocols[j], protocol@, bind_alias@),
            decreases self.protocols.len() - i,
        {
            let ghost before = kept@;
            assert(old_view.protocols.take(i + 1).drop_last() =~= old_view.protocols.take(i as int));
            let b = &self.protocols[i];
            if str_eq(b.protocol.as_str(), protocol) && str_eq(b.bind_alias.as_str(), bind_alias) {
                removed = true;
                assert(is_binding(old_view.protocols[i as int], protocol@, bind_alias@));
            } else {
                kept.push(b.clone());
                assert(bindings_view(kept@) =~= bindings_view(before).push(old_view.protocols[i as int]));
            }
            i = i + 1;
        }
        assert(old_view.protocols.take(self.protocols.len() as int) =~= old_view.protocols);
        self.protocols = kept;
        removed
    }

    /// The file operations that saving this identity under `identities_dir`
    /// takes, given whether its key file and its online marker exist and the
    /// bindings stored on disk (as discovery lists them).
    pub fn save_plan(
        &self,
        identities_dir: &str,
        key_file_exists: bool,
        marker_exists: bool,
        stored: &Vec<ProtocolBinding>,
    ) -> (p: SavePlan)
        ensures
            p.identity_dir@ == identity_dir_spec(identities_dir@, self@.alias),
            p.key_text is Some <==> !key_file_exists,
            p.key_text matches Some(t) ==> stored_key_text(Some(t@)) == Some(self@.secret_key),
            p.marker_path@ == path_join(identity_dir_spec(identities_dir@, self@.alias), "online"@),
            p.marker == marker_action(self@.online, marker_exists),
            p.remove_dirs.deep_view() == binding_dirs(dropped_bindings(bindings_view(stored@), self@.protocols)),
    {
        let identity_dir = join_path(identities_dir, self.alias.as_str());
        let marker_path = join_path(identity_dir.as_str(), "online");
        let marker = if self.online {
            MarkerAction::Write
        } else if marker_exists {
            MarkerAction::Remove
        } else {
            MarkerAction::Keep
        };
        let ghost sv = bindings_view(stored@);
        let mut remove_dirs: Vec<String> = Vec::new();
        let mut i: usize = 0;
        while i < stored.len()
            invariant
                i <= stored.len(),
                sv == bindings_view(stored@),
                remove_dirs.deep_view() == binding_dirs(dropped_bindings(sv.take(i as int), self@.protocols)),
            decreases stored.len() - i,
        {
            assert(sv.take(i + 1).drop_last() =~= sv.take(i as int));
            assert(sv.take(i + 1).last() == stored@[i as int]@);
            let ghost before = remove_dirs.deep_view();
            let b = &stored[i];
            if !self.has_binding(b.protocol.as_str(), b.bind_alias.as_str()) {
                remove_dirs.push(b.config_path.clone());
                assert(remove_dirs.deep_view() =~= before.push(b.config_path@));
                assert(binding_dirs(dropped_bindings(sv.take(i + 1), self@.protocols)) =~= binding_dirs(
                    dropped_bindings(sv.take(i as int), self@.protocols),
                ).push(b.config_path@));
            }
            i = i + 1;
        }
        assert(sv.take(stored.len() as int) =~= sv);
        let key_text = if key_file_exists {
            None
        } else {
            Some(secret_text(&self.secret_key))
        };
        SavePlan { identity_dir, key_text, marker_path, marker, remove_dirs }
    }

    /// An identity of the conventional layout, from what its directory holds.
    pub fn from_conventional(
        alias: &str,
        secret_key: [u8; 32],
        online_marker_exists: bool,
        protocols: Vec<ProtocolBinding>,
    ) -> (c: Self)
        ensures
            c@ == (IdentitySpec {
                alias: alias@,
                secret_key: secret_key@,
                protocols: bindings_view(protocols@),
                online: online_marker_exists,
            }),
    {
        IdentityConfig { alias: owned(alias), secret_key, protocols, online: online_marker_exists }
    }

    /// An identity of the older layout: its stored configuration when there is
    /// one, a new online identity without protocols otherwise; in both cases
    /// named `alias`.
    pub fn from_stored(alias: &str, secret_key: [u8; 32], stored: Option<StoredIdentity>) -> (c: Self)
        ensures
            match stored {
                Some(s) => c@ == (IdentitySpec {
                    alias: alias@,
                    secret_key: secret_key@,
                    protocols: bindings_view(s.protocols@),
                    online: s.online,
                }),
                None => c@ == (IdentitySpec { alias: alias@, secret_key: secret_key@, protocols: Seq::empty(), online: true }),
            },
    {
        match stored {
            Some(s) => IdentityConfig { alias: owned(alias), secret_key, protocols: s.protocols, online: s.online },
            None => IdentityConfig::new(owned(alias), secret_key),
        }
    }
}

/// Where an identity is loaded from.
pub enum IdentitySource {
    /// The conventional directory of the identity.
    Conventional { identity_dir: String },
    /// The older layout: key file beside an optional configuration file.
    Legacy { config_path: String },
}

/// Where identity `alias` under `identities_dir` is loaded from, given
/// whether its conventional directory exists.
pub fn identity_source(identities_dir: &str, alias: &str, identity_dir_exists: bool) -> (s: IdentitySource)
    ensures
        match s {
            IdentitySource::Conventional { identity_dir } => identity_dir_exists && identity_dir@ == identity_dir_spec(
                identities_dir@,
                alias@,
            ),
            IdentitySource::Legacy { config_path } => !identity_dir_exists && config_path@ == path_join(
                identities_dir@,
                alias@ + ".config.json"@,
            ),
        },
{
    if identity_dir_exists {
        IdentitySource::Conventional { identity_dir: join_path(identities_dir, alias) }
    } else {
        let file = concat(alias, ".config.json");
        IdentitySource::Legacy { config_path: join_path(identities_dir, file.as_str()) }
    }
}

/// Directory holding all identities under `fastn_home`.
pub fn identities_dir(fastn_home: &str) -> (p: String)
    ensures
        p@ == path_join(fastn_home@, "identities"@),
{
    join_path(fastn_home, "identities")
}

// ---------------------------------------------------------------- directory scans

/// One entry of a directory listing: its name when it is valid UTF-8, its
/// path, and whether it is a directory.
pub struct DirEntryInfo {
    pub name: Option<String>,
    pub path: String,
    pub is_dir: bool,
}

/// An alias directory inside a protocol directory, with whether it holds `config.json`.
pub struct AliasDirInfo {
    pub entry: DirEntryInfo,
    pub has_config: bool,
}

/// An entry of the `protocols/` directory with, when it is a directory, its entries.
pub struct ProtocolDirInfo {
    pub entry: DirEntryInfo,
    pub aliases: Vec<AliasDirInfo>,
}

/// The mathematical value of a [`DirEntryInfo`].
pub struct EntrySpec {
    pub name: Option<Seq<char>>,
    pub path: Seq<char>,
    pub is_dir: bool,
}

/// The mathematical value of an entry.
pub open spec fn entry_view(e: DirEntryInfo) -> EntrySpec {
    EntrySpec { name: e.name.deep_view(), path: e.path@, is_dir: e.is_dir }
}

/// The bindings found under one protocol directory named `protocol`: one per
/// alias directory with a UTF-8 name that holds `config.json`, in listing order.
pub open spec fn alias_bindings(protocol: Seq<char>, aliases: Seq<AliasDirInfo>) -> Seq<BindingSpec>
    decreases aliases.len(),
{
    if aliases.len() == 0 {
        Seq::empty()
    } else {
        let rest = alias_bindings(protocol, aliases.drop_last());
        let a = aliases.last();
        let e = entry_view(a.entry);
        if e.is_dir && e.name is Some && a.has_config {
            rest.push(BindingSpec { protocol, bind_alias: e.name->0, config_path: e.path })
        } else {
            rest
        }
    }
}

/// The bindings found in a `protocols/` directory: those of every protocol
/// directory with a UTF-8 name, in listing order.
pub open spec fn discovered_bindings(dirs: Seq<ProtocolDirInfo>) -> Seq<BindingSpec>
    decreases dirs.len(),
{
    if dirs.len() == 0 {
        Seq::empty()
    } else {
        let rest = discovered_bindings(dirs.drop_last());
        let d = dirs.last();
        let e = entry_view(d.entry);
        if e.is_dir && e.name is Some {
            rest + alias_bindings(e.name->0, d.aliases@)
        } else {
            rest
        }
    }
}

/// The bindings of one protocol directory.
fn bindings_of_protocol(protocol: &String, aliases: &Vec<AliasDirInfo>) -> (out: Vec<ProtocolBinding>)
    ensures
        bindings_view(out@) == alias_bindings(protocol@, aliases@),
{
    let mut out: Vec<ProtocolBinding> = Vec::new();
    let mut i: usize = 0;
    while i < aliases.len()
        invariant
            i <= aliases.len(),
            bindings_view(out@) == alias_bindings(protocol@, aliases@.take(i as int)),
        decreases aliases.len() - i,
    {
        let ghost before = out@;
        assert(aliases@.take(i + 1).drop_last() =~= aliases@.take(i as int));
        let a = &aliases[i];
        if a.entry.is_dir && a.has_config {
            match &a.entry.name {
                Some(name) => {
                    out.push(ProtocolBinding {
                        protocol: protocol.clone(),
                        bind_alias: name.clone(),
                        config_path: a.entry.path.clone(),
                    });
                    assert(bindings_view(out@) =~= bindings_view(before).push(
                        BindingSpec { protocol: protocol@, bind_alias: name@, config_path: a.entry.path@ },
                    ));
                },
                None => {},
            }
        }
        i = i + 1;
    }
    assert(aliases@.take(aliases.len() as int) =~= aliases@);
    out
}

/// The protocol bindings found in a `protocols/` directory listing.
pub fn discover_protocol_bindings(dirs: &Vec<ProtocolDirInfo>) -> (out: Vec<ProtocolBinding>)
    ensures
        bindings_view(out@) == discovered_bindings(dirs@),
{
    let mut out: Vec<ProtocolBinding> = Vec::new();
    let mut i: usize = 0;
    while i < dirs.len()
        invariant
            i <= dirs.len(),
            bindings_view(out@) == discovered_bindings(dirs@.take(i as int)),
        decreases dirs.len() - i,
    {
        let ghost before = out@;
        assert(dirs@.take(i + 1).drop_last() =~= dirs@.take(i as int));
        let d = &dirs[i];
        if d.entry.is_dir {
            match &d.entry.name {
                Some(name) => {
                    let found = bindings_of_protocol(name, &d.aliases);
                    let mut k: usize = 0;
                    while k < found.len()
                        invariant
                            k <= found.len(),
                            bindings_view(out@) == bindings_view(before) + bindings_view(found@).take(k as int),
                        decreases found.len() - k,
                    {
                        let ghost mid = out@;
                        out.push(found[k].clone());
                        assert(bindings_view(out@) =~= bindings_view(mid).push(found@[k as int]@));
                        assert(bindings_view(found@).take(k + 1) =~= bindings_view(found@).take(k as int).push(
                            found@[k as int]@,
                        ));
                        k = k + 1;
                    }
                    assert(bindings_view(found@).take(found.len() as int) =~= bindings_view(found@));
                },
                None => {},
            }
        }
        i = i + 1;
    }
    assert(dirs@.take(dirs.len() as int) =~= dirs@);
    out
}

/// The identity directories of an `identities/` listing: the directories
/// with a UTF-8 name, as (alias, path), in listing order.
pub open spec fn identity_dirs_spec(entries: Seq<DirEntryInfo>) -> Seq<(Seq<char>, Seq<char>)>
    decreases entries.len(),
{
    if entries.len() == 0 {
        Seq::empty()
    } else {
        let rest = identity_dirs_spec(entries.drop_last());
        let e = entry_view(entries.last());
        if e.is_dir && e.name is Some {
            rest.push((e.name->0, e.path))
        } else {
            rest
        }
    }
}

/// The identity directories of an `identities/` listing, as (alias, path).
pub fn identity_dirs(entries: &Vec<DirEntryInfo>) -> (out: Vec<(String, String)>)
    ensures
        out.deep_view() == identity_dirs_spec(entries@),
{
    let mut out: Vec<(String, String)> = Vec::new();
    let mut i: usize = 0;
    while i < entries.len()
        invariant
            i <= entries.len(),
            out.deep_view() == identity_dirs_spec(entries@.take(i as int)),
        decreases entries.len() - i,
    {
        let ghost before = out.deep_view();
        assert(entries@.take(i + 1).drop_last() =~= entries@.take(i as int));
        let e = &entries[i];
        if e.is_dir {
            match &e.name {
                Some(name) => {
                    out.push((name.clone(), e.path.clone()));
                    assert(out.deep_view() =~= before.push((name@, e.path@)));
                },
                None => {},
            }
        }
        i = i + 1;
    }
    assert(entries@.take(entries.len() as int) =~= entries@);
    out
}

/// Alias directory `j` of a protocol directory is a directory named `alias`
/// holding `config.json`.
pub open spec fn alias_dir_listed(aliases: Seq<AliasDirInfo>, j: int, alias: Seq<char>) -> bool {
    &&& 0 <= j < aliases.len()
    &&& aliases[j].entry.is_dir
    &&& aliases[j].entry.name.deep_view() == Some(alias)
    &&& aliases[j].has_config
}

proof fn lemma_alias_listed_found(protocol: Seq<char>, aliases: Seq<AliasDirInfo>, j: int, alias: Seq<char>)
    requires
        alias_dir_listed(aliases, j, alias),
    ensures
        alias_bindings(protocol, aliases).contains(
            BindingSpec { protocol, bind_alias: alias, config_path: aliases[j].entry.path@ },
        ),
    decreases aliases.len(),
{
    let b = BindingSpec { protocol, bind_alias: alias, config_path: aliases[j].entry.path@ };
    let rest = alias_bindings(protocol, aliases.drop_last());
    if j == aliases.len() - 1 {
        assert(alias_bindings(protocol, aliases) == rest.push(b));
        assert(rest.push(b)[rest.len() as int] == b);
    } else {
        assert(aliases.drop_last()[j] == aliases[j]);
        lemma_alias_listed_found(protocol, aliases.drop_last(), j, alias);
        let k = choose|k: int| 0 <= k < rest.len() && rest[k] == b;
        let all = alias_bindings(protocol, aliases);
        assert(all.len() >= rest.len() && all.take(rest.len() as int) =~= rest) by {
            let a = aliases.last();
            let e = entry_view(a.entry);
            if e.is_dir && e.name is Some && a.has_config {
                assert(all.take(rest.len() as int) =~= rest);
            } else {
                assert(all =~= rest);
            }
        }
        assert(all[k] == all.take(rest.len() as int)[k]);
    }
}

/// Whenever a listing of a `protocols/` directory holds a directory named
/// `protocol` whose alias directory `alias` holds `config.json`, discovery
/// finds the binding of `protocol` under `alias`, configured in that alias
/// directory.
pub proof fn lemma_listed_binding_discovered(
    dirs: Seq<ProtocolDirInfo>,
    i: int,
    j: int,
    protocol: Seq<char>,
    alias: Seq<char>,
)
    requires
        0 <= i < dirs.len(),
        dirs[i].entry.is_dir,
        dirs[i].entry.name.deep_view() == Some(protocol),
        alias_dir_listed(dirs[i].aliases@, j, alias),
    ensures
        discovered_bindings(dirs).contains(
            BindingSpec { protocol, bind_alias: alias, config_path: dirs[i].aliases@[j].entry.path@ },
        ),
    decreases dirs.len(),
{
    let b = BindingSpec { protocol, bind_alias: alias, config_path: dirs[i].aliases@[j].entry.path@ };
    let rest = discovered_bindings(dirs.drop_last());
    let all = discovered_bindings(dirs);
    if i == dirs.len() - 1 {
        let d = dirs.last();
        assert(entry_view(d.entry).name == Some(protocol));
        lemma_alias_listed_found(protocol, d.aliases@, j, alias);
        let ab = alias_bindings(protocol, d.aliases@);
        assert(all == rest + ab);
        let k = choose|k: int| 0 <= k < ab.len() && ab[k] == b;
        assert(all[rest.len() + k] == b);
    } else {
        assert(dirs.drop_last()[i] == dirs[i]);
        lemma_listed_binding_discovered(dirs.drop_last(), i, j, protocol, alias);
        let k = choose|k: int| 0 <= k < rest.len() && rest[k] == b;
        let d = dirs.last();
        let e = entry_view(d.entry);
        if e.is_dir && e.name is Some {
            assert(all == rest + alias_bindings(e.name->0, d.aliases@));
        } else {
            assert(all == rest);
        }
        assert(all[k] == b);
    }
}

// ---------------------------------------------------------------- laws

/// Removing a binding undoes adding it: for bindings that do not hold
/// `protocol` under `alias`, adding it and then removing it gives the
/// bindings back.
pub proof fn lemma_remove_undoes_add(bs: Seq<BindingSpec>, b: BindingSpec)
    requires
        !has_binding_spec(bs, b.protocol, b.bind_alias),
    ensures
        without_binding(bs.push(b), b.protocol, b.bind_alias) == bs,
{
    lemma_without_absent(bs, b.protocol, b.bind_alias);
    assert(bs.push(b).drop_last() =~= bs);
}

/// Removing a binding that is not there changes nothing.
pub proof fn lemma_without_absent(bs: Seq<BindingSpec>, protocol: Seq<char>, alias: Seq<char>)
    requires
        !has_binding_spec(bs, protocol, alias),
    ensures
        without_binding(bs, protocol, alias) == bs,
    decreases bs.len(),
{
    if bs.len() > 0 {
        let rest = bs.drop_last();
        assert(!has_binding_spec(rest, protocol, alias)) by {
            if has_binding_spec(rest, protocol, alias) {
                let i = choose|i: int| 0 <= i < rest.len() && #[trigger] is_binding(rest[i], protocol, alias);
                assert(is_binding(bs[i], protocol, alias));
            }
        }
        lemma_without_absent(rest, protocol, alias);
        assert(!is_binding(bs[bs.len() - 1], protocol, alias));
        assert(rest.push(bs.last()) =~= bs);
    }
}

/// After removal no binding of `protocol` under `alias` is left, and every
/// other binding is kept.
pub proof fn lemma_remove_is_exact(bs: Seq<BindingSpec>, protocol: Seq<char>, alias: Seq<char>)
    ensures
        !has_binding_spec(without_binding(bs, protocol, alias), protocol, alias),
        forall|b: BindingSpec| !is_binding(b, protocol, alias) ==> (#[trigger] bs.contains(b) <==> without_binding(
            bs,
            protocol,
            alias,
        ).contains(b)),
    decreases bs.len(),
{
    if bs.len() > 0 {
        let rest = bs.drop_last();
        lemma_remove_is_exact(rest, protocol, alias);
        let w = without_binding(rest, protocol, alias);
        if !is_binding(bs.last(), protocol, alias) {
            assert(!has_binding_spec(w.push(bs.last()), protocol, alias)) by {
                if has_binding_spec(w.push(bs.last()), protocol, alias) {
                    let i = choose|i: int| 0 <= i < w.len() + 1 && #[trigger] is_binding(w.push(bs.last())[i], protocol, alias);
                    if i < w.len() {
                        assert(is_binding(w[i], protocol, alias));
                    }
                }
            }
        }
        assert forall|b: BindingSpec| !is_binding(b, protocol, alias) implies (#[trigger] bs.contains(b)
            <==> without_binding(bs, protocol, alias).contains(b)) by {
            if bs.contains(b) {
                let i = choose|i: int| 0 <= i < bs.len() && bs[i] == b;
                if i < rest.len() {
                    assert(rest[i] == b);
                    assert(rest.contains(b));
                    let k = choose|k: int| 0 <= k < w.len() && w[k] == b;
                    if !is_binding(bs.last(), protocol, alias) {
                        assert(w.push(bs.last())[k] == b);
                    }
                } else {
                    assert(w.push(bs.last())[w.len() as int] == b);
                }
            }
            if without_binding(bs, protocol, alias).contains(b) {
                let k = choose|k: int| 0 <= k < without_binding(bs, protocol, alias).len() && without_binding(bs, protocol, alias)[k] == b;
                if k < w.len() {
                    assert(w[k] == b);
                    assert(w.contains(b));
                    assert(rest.contains(b));
                    let i = choose|i: int| 0 <= i < rest.len() && rest[i] == b;
                    assert(bs[i] == b);
                } else {
                    assert(bs[bs.len() - 1] == b);
                }
            }
        }
    }
}


proof fn lemma_after_removal_members(bs: Seq<BindingSpec>, dirs: Seq<Seq<char>>)
    ensures
        forall|b: BindingSpec| #[trigger] after_removal(bs, dirs).contains(b) <==> (bs.contains(b) && !dirs.contains(
            b.config_path,
        )),
    decreases bs.len(),
{
    if bs.len() > 0 {
        let rest = bs.drop_last();
        lemma_after_removal_members(rest, dirs);
        let r = after_removal(rest, dirs);
        assert forall|b: BindingSpec| #[trigger] after_removal(bs, dirs).contains(b) <==> (bs.contains(b)
            && !dirs.contains(b.config_path)) by {
            let a = after_removal(bs, dirs);
            if a.contains(b) {
                let k = choose|k: int| 0 <= k < a.len() && a[k] == b;
                if k < r.len() {
                    assert(r[k] == b);
                    assert(r.contains(b));
                    let m = choose|m: int| 0 <= m < rest.len() && rest[m] == b;
                    assert(bs[m] == b);
                } else {
                    assert(bs[bs.len() - 1] == b);
                }
            }
            if bs.contains(b) && !dirs.contains(b.config_path) {
                let m = choose|m: int| 0 <= m < bs.len() && bs[m] == b;
                if m < rest.len() {
                    assert(rest[m] == b);
                    assert(r.contains(b));
                    let k = choose|k: int| 0 <= k < r.len() && r[k] == b;
                    if !dirs.contains(bs.last().config_path) {
                        assert(a[k] == b);
                    }
                } else {
                    assert(a[r.len() as int] == b);
                }
            }
        }
    }
}

proof fn lemma_dropped_members(stored: Seq<BindingSpec>, current: Seq<BindingSpec>)
    ensures
        forall|b: BindingSpec| #[trigger] dropped_bindings(stored, current).contains(b) <==> (stored.contains(b)
            && !has_binding_spec(current, b.protocol, b.bind_alias)),
    decreases stored.len(),
{
    if stored.len() > 0 {
        let rest = stored.drop_last();
        lemma_dropped_members(rest, current);
        let r = dropped_bindings(rest, current);
        assert forall|b: BindingSpec| #[trigger] dropped_bindings(stored, current).contains(b) <==> (stored.contains(b)
            && !has_binding_spec(current, b.protocol, b.bind_alias)) by {
            let d = dropped_bindings(stored, current);
            if d.contains(b) {
                let k = choose|k: int| 0 <= k < d.len() && d[k] == b;
                if k < r.len() {
                    assert(r[k] == b);
                    assert(r.contains(b));
                    let m = choose|m: int| 0 <= m < rest.len() && rest[m] == b;
                    assert(stored[m] == b);
                } else {
                    assert(stored[stored.len() - 1] == b);
                }
            }
            if stored.contains(b) && !has_binding_spec(current, b.protocol, b.bind_alias) {
                let m = choose|m: int| 0 <= m < stored.len() && stored[m] == b;
                if m < rest.len() {
                    assert(rest[m] == b);
                    assert(r.contains(b));
                    let k = choose|k: int| 0 <= k < r.len() && r[k] == b;
                    let l = stored.last();
                    if !has_binding_spec(current, l.protocol, l.bind_alias) {
                        assert(d[k] == b);
                    }
                } else {
                    assert(d[r.len() as int] == b);
                }
            }
        }
    }
}

/// Saving keeps exactly the stored bindings that the identity still has:
/// when each stored binding has its own directory, a binding is listed after
/// saving if and only if it was stored and the identity still binds its
/// protocol under its alias.
pub proof fn lemma_saved_bindings(stored: Seq<BindingSpec>, current: Seq<BindingSpec>)
    requires
        own_directories(stored),
    ensures
        forall|b: BindingSpec| #[trigger] saved_bindings(stored, current).contains(b) <==> (stored.contains(b)
            && has_binding_spec(current, b.protocol, b.bind_alias)),
{
    let dropped = dropped_bindings(stored, current);
    let dirs = binding_dirs(dropped);
    lemma_after_removal_members(stored, dirs);
    lemma_dropped_members(stored, current);
    assert forall|b: BindingSpec| #[trigger] saved_bindings(stored, current).contains(b) <==> (stored.contains(b)
        && has_binding_spec(current, b.protocol, b.bind_alias)) by {
        if stored.contains(b) {
            if has_binding_spec(current, b.protocol, b.bind_alias) {
                if dirs.contains(b.config_path) {
                    let k = choose|k: int| 0 <= k < dirs.len() && dirs[k] == b.config_path;
                    let d = dropped[k];
                    assert(dropped.contains(d));
                    let m = choose|m: int| 0 <= m < stored.len() && stored[m] == d;
                    let n = choose|n: int| 0 <= n < stored.len() && stored[n] == b;
                    assert(stored[m].config_path == stored[n].config_path);
                }
            } else {
                assert(dropped.contains(b));
                let k = choose|k: int| 0 <= k < dropped.len() && dropped[k] == b;
                assert(dirs[k] == b.config_path);
            }
        }
    }
}

/// Removing a binding persists: when the identity loaded with the stored
/// bindings `stored` has `protocol` under `alias` removed and is saved, the
/// bindings listed afterwards hold no binding of `protocol` under `alias`
/// and every other stored binding.
pub proof fn lemma_removal_persists(stored: Seq<BindingSpec>, protocol: Seq<char>, alias: Seq<char>)
    requires
        own_directories(stored),
    ensures
        !has_binding_spec(saved_bindings(stored, without_binding(stored, protocol, alias)), protocol, alias),
        forall|b: BindingSpec|
            !is_binding(b, protocol, alias) ==> (#[trigger] stored.contains(b) <==> saved_bindings(
                stored,
                without_binding(stored, protocol, alias),
            ).contains(b)),
{
    let current = without_binding(stored, protocol, alias);
    let after = saved_bindings(stored, current);
    lemma_saved_bindings(stored, current);
    lemma_remove_is_exact(stored, protocol, alias);
    if has_binding_spec(after, protocol, alias) {
        let i = choose|i: int| 0 <= i < after.len() && #[trigger] is_binding(after[i], protocol, alias);
        assert(after.contains(after[i]));
    }
    assert forall|b: BindingSpec| !is_binding(b, protocol, alias) implies (#[trigger] stored.contains(b)
        <==> after.contains(b)) by {
        if stored.contains(b) {
            assert(current.contains(b));
            let k = choose|k: int| 0 <= k < current.len() && current[k] == b;
            assert(is_binding(current[k], b.protocol, b.bind_alias));
        }
    }
}

/// Saving an identity and loading it back from its directory gives the same
/// alias and online state, and the bindings it has among those stored.  (The
/// key text that a save writes loads back as the identity's key: `save_plan`
/// states that of the text it plans.)
pub proof fn lemma_save_then_load(
    c: IdentitySpec,
    identities_dir: Seq<char>,
    stored: Seq<BindingSpec>,
    marker_existed: bool,
)
    requires
        own_directories(stored),
    ensures
        marker_after(marker_action(c.online, marker_existed), marker_existed) == c.online,
        forall|b: BindingSpec| #[trigger] saved_bindings(stored, c.protocols).contains(b) <==> (stored.contains(b)
            && has_binding_spec(c.protocols, b.protocol, b.bind_alias)),
        identity_dir_spec(identities_dir, c.alias) == path_join(identities_dir, c.alias),
{
    lemma_saved_bindings(stored, c.protocols);
}

} // verus!
