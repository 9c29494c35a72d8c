//! Multi-identity server builder.
//!
//! A server program registers protocols, each with named request commands,
//! named stream commands and lifecycle hooks; every name and hook can be
//! registered only once.  Started with management arguments, the program
//! acts as a command-line tool instead of a server; otherwise it serves, for
//! every online identity, each binding of a registered protocol.

use vstd::prelude::*;
use crate::server::daemon::{BindingSpec, IdentityConfig, IdentitySpec, ProtocolBinding};
use crate::text::{concat, contains_text, join_path, owned, path_join, str_eq};

verus! {

// ---------------------------------------------------------------- registries

/// Lifecycle hooks a protocol can register.
#[derive(Clone, Copy, Debug, PartialEq, Eq, Structural)]
pub enum LifecycleHook {
    Create,
    Activate,
    Deactivate,
    Check,
    Reload,
    Delete,
    GlobalLoad,
    GlobalUnload,
}

/// The commands and hooks registered for one protocol.
pub struct ProtocolBuilder {
    protocol_name: String,
    request_commands: Vec<String>,
    stream_commands: Vec<String>,
    hooks: Vec<LifecycleHook>,
}

/// The mathematical value of a [`ProtocolBuilder`].
pub struct ProtocolBuilderSpec {
    pub name: Seq<char>,
    pub requests: Seq<Seq<char>>,
    pub streams: Seq<Seq<char>>,
    pub hooks: Seq<LifecycleHook>,
}

impl View for ProtocolBuilder {
    type V = ProtocolBuilderSpec;

    closed spec fn view(&self) -> ProtocolBuilderSpec {
        ProtocolBuilderSpec {
            name: self.protocol_name@,
            requests: self.request_commands.deep_view(),
            streams: self.stream_commands.deep_view(),
            hooks: self.hooks@,
        }
    }
}

/// A protocol named `name` with nothing registered.
pub open spec fn fresh_protocol(name: Seq<char>) -> ProtocolBuilderSpec {
    ProtocolBuilderSpec { name, requests: Seq::empty(), streams: Seq::empty(), hooks: Seq::empty() }
}

impl ProtocolBuilder {
    /// A protocol named `protocol_name` with nothing registered.
    pub fn new(protocol_name: &str) -> (b: Self)
        ensures
            b@ == (ProtocolBuilderSpec {
                name: protocol_name@,
                requests: Seq::empty(),
                streams: Seq::empty(),
                hooks: Seq::empty(),
            }),
    {
        let b = ProtocolBuilder {
            protocol_name: owned(protocol_name),
            request_commands: Vec::new(),
            stream_commands: Vec::new(),
            hooks: Vec::new(),
        };
        assert(b@.requests =~= Seq::<Seq<char>>::empty());
        assert(b@.streams =~= Seq::<Seq<char>>::empty());
        b
    }

    /// The protocol's name.
    pub fn name(&self) -> (s: &str)
        ensures
            s@ == self@.name,
    {
        self.protocol_name.as_str()
    }

    /// Whether request command `command` is registered.
    pub fn has_request_command(&self, command: &str) -> (b: bool)
        ensures
            b == self@.requests.contains(command@),
    {
        contains_text(&self.request_commands, command)
    }

    /// Whether stream command `command` is registered.
    pub fn has_stream_command(&self, command: &str) -> (b: bool)
        ensures
            b == self@.streams.contains(command@),
    {
        contains_text(&self.stream_commands, command)
    }

    /// Whether `hook` is registered.
    pub fn has_hook(&self, hook: LifecycleHook) -> (b: bool)
        ensures
            b == self@.hooks.contains(hook),
    {
        let mut i: usize = 0;
        while i < self.hooks.len()
            invariant
                i <= self.hooks.len(),
                forall|j: int| 0 <= j < i ==> self@.hooks[j] != hook,
            decreases self.hooks.len() - i,
        {
            if self.hooks[i] == hook {
                assert(self@.hooks[i as int] == hook);
                return true;
            }
            i = i + 1;
        }
        false
    }

    /// Whether any request command is registered.
    pub fn serves_requests(&self) -> (b: bool)
        ensures
            b == (self@.requests.len() > 0),
    {
        self.request_commands.len() > 0
    }

    /// Whether any stream command is registered.
    pub fn serves_streams(&self) -> (b: bool)
        ensures
            b == (self@.streams.len() > 0),
    {
        self.stream_commands.len() > 0
    }

    /// Registers request command `command` (a command can be registered once).
    pub fn handle_requests(self, command: &str) -> (b: Self)
        requires
            !self@.requests.contains(command@),
        ensures
            b@ == (ProtocolBuilderSpec { requests: self@.requests.push(command@), ..self@ }),
    {
        let mut b = self;
        b.request_commands.push(owned(command));
        assert(b@.requests =~= self@.requests.push(command@));
        b
    }

    /// Registers stream command `command` (a command can be registered once).
    pub fn handle_streams(self, command: &str) -> (b: Self)
        requires
            !self@.streams.contains(command@),
        ensures
            b@ == (ProtocolBuilderSpec { streams: self@.streams.push(command@), ..self@ }),
    {
        let mut b = self;
        b.stream_commands.push(owned(command));
        assert(b@.streams =~= self@.streams.push(command@));
        b
    }

    /// Registers lifecycle hook `hook` (a hook can be registered once).
    pub fn on_hook(self, hook: LifecycleHook) -> (b: Self)
        requires
            !self@.hooks.contains(hook),
        ensures
            b@ == (ProtocolBuilderSpec { hooks: self@.hooks.push(hook), ..self@ }),
    {
        let mut b = self;
        b.hooks.push(hook);
        b
    }

    /// Registers the per-binding creation hook (it can be registered once).
    pub fn on_create(self) -> (b: Self)
        requires
            !self@.hooks.contains(LifecycleHook::Create),
        ensures
            b@ == (ProtocolBuilderSpec { hooks: self@.hooks.push(LifecycleHook::Create), ..self@ }),
    {
        self.on_hook(LifecycleHook::Create)
    }

    /// Registers the per-binding activation hook (it can be registered once).
    pub fn on_activate(self) -> (b: Self)
        requires
            !self@.hooks.contains(LifecycleHook::Activate),
        ensures
            b@ == (ProtocolBuilderSpec { hooks: self@.hooks.push(LifecycleHook::Activate), ..self@ }),
    {
        self.on_hook(LifecycleHook::Activate)
    }

    /// Registers the per-binding deactivation hook (it can be registered once).
    pub fn on_deactivate(self) -> (b: Self)
        requires
            !self@.hooks.contains(LifecycleHook::Deactivate),
        ensures
            b@ == (ProtocolBuilderSpec { hooks: self@.hooks.push(LifecycleHook::Deactivate), ..self@ }),
    {
        self.on_hook(LifecycleHook::Deactivate)
    }

    /// Registers the per-binding configuration check hook (it can be registered once).
    pub fn on_check(self) -> (b: Self)
        requires
            !self@.hooks.contains(LifecycleHook::Check),
        ensures
            b@ == (ProtocolBuilderSpec { hooks: self@.hooks.push(LifecycleHook::Check), ..self@ }),
    {
        self.on_hook(LifecycleHook::Check)
    }

    /// Registers the per-binding reload hook (it can be registered once).
    pub fn on_reload(self) -> (b: Self)
        requires
            !self@.hooks.contains(LifecycleHook::Reload),
        ensures
            b@ == (ProtocolBuilderSpec { hooks: self@.hooks.push(LifecycleHook::Reload), ..self@ }),
    {
        self.on_hook(LifecycleHook::Reload)
    }

    /// Registers the per-binding deletion hook (it can be registered once).
    pub fn on_delete(self) -> (b: Self)
        requires
            !self@.hooks.contains(LifecycleHook::Delete),
        ensures
            b@ == (ProtocolBuilderSpec { hooks: self@.hooks.push(LifecycleHook::Delete), ..self@ }),
    {
        self.on_hook(LifecycleHook::Delete)
    }

    /// Registers the global load hook (it can be registered once).
    pub fn on_global_load(self) -> (b: Self)
        requires
            !self@.hooks.contains(LifecycleHook::GlobalLoad),
        ensures
            b@ == (ProtocolBuilderSpec { hooks: self@.hooks.push(LifecycleHook::GlobalLoad), ..self@ }),
    {
        self.on_hook(LifecycleHook::GlobalLoad)
    }

    /// Registers the global unload hook (it can be registered once).
    pub fn on_global_unload(self) -> (b: Self)
        requires
            !self@.hooks.contains(LifecycleHook::GlobalUnload),
        ensures
            b@ == (ProtocolBuilderSpec { hooks: self@.hooks.push(LifecycleHook::GlobalUnload), ..self@ }),
    {
        self.on_hook(LifecycleHook::GlobalUnload)
    }

    /// The same registrations under the name `protocol_name`.
    fn renamed(self, protocol_name: &str) -> (b: Self)
        ensures
            b@ == (ProtocolBuilderSpec { name: protocol_name@, ..self@ }),
    {
        let mut b = self;
        b.protocol_name = owned(protocol_name);
        b
    }
}

/// The protocols a server program serves.
pub struct ServeAllBuilder {
    fastn_home: String,
    protocols: Vec<ProtocolBuilder>,
}

/// The mathematical value of a [`ServeAllBuilder`].
pub struct ServeAllSpec {
    pub fastn_home: Seq<char>,
    pub protocols: Seq<ProtocolBuilderSpec>,
}

impl View for ServeAllBuilder {
    type V = ServeAllSpec;

    closed spec fn view(&self) -> ServeAllSpec {
        ServeAllSpec { fastn_home: self.fastn_home@, protocols: self.protocols@.map_values(|p: ProtocolBuilder| p@) }
    }
}

/// Whether protocol `name` is registered.
pub open spec fn has_protocol_spec(b: ServeAllSpec, name: Seq<char>) -> bool {
    exists|i: int| 0 <= i < b.protocols.len() && #[trigger] b.protocols[i].name == name
}

/// `FASTN_HOME`: the `FASTN_HOME` variable when set, else `.fastn` in the
/// `HOME` variable's directory, else `/tmp/.fastn`.
pub open spec fn serve_home(fastn_home_var: Option<Seq<char>>, home_var: Option<Seq<char>>) -> Seq<char> {
    match fastn_home_var {
        Some(h) => h,
        None => match home_var {
            Some(home) => path_join(home, ".fastn"@),
            None => path_join("/tmp"@, ".fastn"@),
        },
    }
}

/// A builder with no protocols, serving from `FASTN_HOME` as found from the
/// `FASTN_HOME` and `HOME` environment variables (given here).
pub fn serve_all(fastn_home_var: Option<String>, home_var: Option<String>) -> (b: ServeAllBuilder)
    ensures
        b@.fastn_home == serve_home(fastn_home_var.deep_view(), home_var.deep_view()),
        b@.protocols.len() == 0,
{
    let fastn_home = match fastn_home_var {
        Some(h) => h,
        None => match home_var {
            Some(home) => join_path(home.as_str(), ".fastn"),
            None => join_path("/tmp", ".fastn"),
        },
    };
    let b = ServeAllBuilder { fastn_home, protocols: Vec::new() };
    assert(b@.protocols =~= Seq::<ProtocolBuilderSpec>::empty());
    b
}

impl ServeAllBuilder {
    /// `FASTN_HOME` of this server.
    pub fn fastn_home(&self) -> (s: &str)
        ensures
            s@ == self@.fastn_home,
    {
        self.fastn_home.as_str()
    }

    /// Whether protocol `name` is registered.
    pub fn has_protocol(&self, name: &str) -> (b: bool)
        ensures
            b == has_protocol_spec(self@, name@),
    {
        let mut i: usize = 0;
        while i < self.protocols.len()
            invariant
                i <= self.protocols.len(),
                forall|j: int| 0 <= j < i ==> self@.protocols[j].name != name@,
            decreases self.protocols.len() - i,
        {
            if str_eq(self.protocols[i].name(), name) {
                assert(self@.protocols[i as int].name == name@);
                return true;
            }
            i = i + 1;
        }
        false
    }

    /// Registers a configured protocol (a protocol can be registered once).
    pub fn register_protocol(self, protocol: ProtocolBuilder) -> (b: Self)
        requires
            !has_protocol_spec(self@, protocol@.name),
        ensures
            b@ == (ServeAllSpec { protocols: self@.protocols.push(protocol@), ..self@ }),
    {
        let mut b = self;
        let ghost before = b.protocols@;
        let ghost pv = protocol@;
        b.protocols.push(protocol);
        assert(b@.protocols =~= before.map_values(|p: ProtocolBuilder| p@).push(pv));
        b
    }

    /// Registers protocol `protocol_name`, configured by `builder_fn` from a
    /// builder with nothing registered (a protocol can be registered once).
    pub fn protocol<F>(self, protocol_name: &str, builder_fn: F) -> (b: Self)
        where
            F: FnOnce(ProtocolBuilder) -> ProtocolBuilder,
        requires
            !has_protocol_spec(self@, protocol_name@),
            forall|p: ProtocolBuilder| #[trigger] call_requires(builder_fn, (p,)),
        ensures
            exists|p: ProtocolBuilder, c: ProtocolBuilder|
                p@ == fresh_protocol(protocol_name@) && call_ensures(builder_fn, (p,), c) && b@ == (ServeAllSpec {
                    protocols: self@.protocols.push(ProtocolBuilderSpec { name: protocol_name@, ..c@ }),
                    ..self@
                }),
    {
        let fresh = ProtocolBuilder::new(protocol_name);
        let configured = builder_fn(fresh).renamed(protocol_name);
        let b = self.register_protocol(configured);
        b
    }

    /// The registered protocol named `name`.
    pub fn find_protocol(&self, name: &str) -> (r: Option<&ProtocolBuilder>)
        ensures
            match r {
                Some(p) => p@.name == name@ && exists|i: int|
                    0 <= i < self@.protocols.len() && self@.protocols[i] == p@ && forall|j: int|
                        0 <= j < i ==> self@.protocols[j].name != name@,
                None => !has_protocol_spec(self@, name@),
            },
    {
        let mut i: usize = 0;
        while i < self.protocols.len()
            invariant
                i <= self.protocols.len(),
                forall|j: int| 0 <= j < i ==> self@.protocols[j].name != name@,
            decreases self.protocols.len() - i,
        {
            if str_eq(self.protocols[i].name(), name) {
                assert(self@.protocols[i as int] == self.protocols@[i as int]@);
                return Some(&self.protocols[i]);
            }
            i = i + 1;
        }
        None
    }
}

// ---------------------------------------------------------------- serving plan

/// A binding to be served: the identity, the binding, and which handlers start.
#[derive(Debug)]
pub struct ServiceStart {
    pub identity: String,
    pub protocol: String,
    pub bind_alias: String,
    pub protocol_dir: String,
    pub requests: bool,
    pub streams: bool,
}

/// The mathematical value of a [`ServiceStart`].
pub struct ServiceSpec {
    pub identity: Seq<char>,
    pub protocol: Seq<char>,
    pub bind_alias: Seq<char>,
    pub protocol_dir: Seq<char>,
    pub requests: bool,
    pub streams: bool,
}

impl View for ServiceStart {
    type V = ServiceSpec;

    open spec fn view(&self) -> ServiceSpec {
        ServiceSpec {
            identity: self.identity@,
            protocol: self.protocol@,
            bind_alias: self.bind_alias@,
            protocol_dir: self.protocol_dir@,
            requests: self.requests,
            streams: self.streams,
        }
    }
}

/// The first registered protocol named `name`.
pub open spec fn lookup_protocol(protocols: Seq<ProtocolBuilderSpec>, name: Seq<char>) -> Option<ProtocolBuilderSpec>
    decreases protocols.len(),
{
    if protocols.len() == 0 {
        None
    } else if protocols[0].name == name {
        Some(protocols[0])
    } else {
        lookup_protocol(protocols.drop_first(), name)
    }
}

/// The services of one identity's bindings, in binding order: one for each
/// binding of a registered protocol.
pub open spec fn binding_services(alias: Seq<char>, bindings: Seq<BindingSpec>, protocols: Seq<ProtocolBuilderSpec>) -> Seq<ServiceSpec>
    decreases bindings.len(),
{
    if bindings.len() == 0 {
        Seq::empty()
    } else {
        let rest = binding_services(alias, bindings.drop_last(), protocols);
        let b = bindings.last();
        match lookup_protocol(protocols, b.protocol) {
            Some(p) => rest.push(ServiceSpec {
                identity: alias,
                protocol: b.protocol,
                bind_alias: b.bind_alias,
                protocol_dir: b.config_path,
                requests: p.requests.len() > 0,
                streams: p.streams.len() > 0,
            }),
            None => rest,
        }
    }
}

/// The services of the online identities, in identity order.
pub open spec fn planned_services(identities: Seq<IdentitySpec>, protocols: Seq<ProtocolBuilderSpec>) -> Seq<ServiceSpec>
    decreases identities.len(),
{
    if identities.len() == 0 {
        Seq::empty()
    } else {
        let rest = planned_services(identities.drop_last(), protocols);
        let id = identities.last();
        if id.online {
            rest + binding_services(id.alias, id.protocols, protocols)
        } else {
            rest
        }
    }
}

/// Whether some identity is online.
pub open spec fn any_online(identities: Seq<IdentitySpec>) -> bool {
    exists|i: int| 0 <= i < identities.len() && #[trigger] identities[i].online
}

/// The message given when no identity is online.
pub open spec fn no_online_message() -> Seq<char> {
    "No online identities found. Set identities online with: fastn-p2p identity-online <name>"@
}

/// The views of identities.
pub open spec fn identities_view(v: Seq<IdentityConfig>) -> Seq<IdentitySpec> {
    v.map_values(|c: IdentityConfig| c@)
}

impl ServeAllBuilder {
    /// The services of one identity's bindings.
    fn services_of(&self, alias: &String, bindings: &Vec<ProtocolBinding>) -> (out: Vec<ServiceStart>)
        ensures
            out@.map_values(|s: ServiceStart| s@) == binding_services(
                alias@,
                bindings@.map_values(|b: ProtocolBinding| b@),
                self@.protocols,
            ),
    {
        let ghost bv = bindings@.map_values(|b: ProtocolBinding| b@);
        let mut out: Vec<ServiceStart> = Vec::new();
        let mut i: usize = 0;
        while i < bindings.len()
            invariant
                i <= bindings.len(),
                bv == bindings@.map_values(|b: ProtocolBinding| b@),
                out@.map_values(|s: ServiceStart| s@) == binding_services(alias@, bv.take(i as int), self@.protocols),
            decreases bindings.len() - i,
        {
            let ghost before = out@.map_values(|s: ServiceStart| s@);
            assert(bv.take(i + 1).drop_last() =~= bv.take(i as int));
            assert(bv.take(i + 1).last() == bindings@[i as int]@);
            let b = &bindings[i];
            let found = self.find_protocol(b.protocol.as_str());
            proof {
                lemma_lookup_first(self@.protocols, b.protocol@);
            }
            match found {
                Some(p) => {
                    let s = ServiceStart {
                        identity: alias.clone(),
                        protocol: b.protocol.clone(),
                        bind_alias: b.bind_alias.clone(),
                        protocol_dir: b.config_path.clone(),
                        requests: p.serves_requests(),
                        streams: p.serves_streams(),
                    };
                    out.push(s);
                    assert(out@.map_values(|s: ServiceStart| s@) =~= before.push(s@));
                },
                None => {},
            }
            i = i + 1;
        }
        assert(bv.take(bindings.len() as int) =~= bv);
        out
    }

    /// What to serve, given the loaded identities: every binding of a
    /// registered protocol of every online identity; an error when no
    /// identity is online.
    pub fn plan_services(&self, identities: &Vec<IdentityConfig>) -> (r: Result<Vec<ServiceStart>, String>)
        ensures
            match r {
                Ok(services) => any_online(identities_view(identities@)) && services@.map_values(
                    |s: ServiceStart| s@,
                ) == planned_services(identities_view(identities@), self@.protocols),
                Err(m) => !any_online(identities_view(identities@)) && m@ == no_online_message(),
            },
    {
        let ghost iv = identities_view(identities@);
        let mut out: Vec<ServiceStart> = Vec::new();
        let mut online = false;
        let mut i: usize = 0;
        while i < identities.len()
            invariant
                i <= identities.len(),
                iv == identities_view(identities@),
                out@.map_values(|s: ServiceStart| s@) == planned_services(iv.take(i as int), self@.protocols),
                online == exists|j: int| 0 <= j < i && #[trigger] iv[j].online,
            decreases identities.len() - i,
        {
            let ghost before = out@.map_values(|s: ServiceStart| s@);
            assert(iv.take(i + 1).drop_last() =~= iv.take(i as int));
            assert(iv.take(i + 1).last() == identities@[i as int]@);
            let id = &identities[i];
            assert(iv[i as int] == identities@[i as int]@);
            if id.online {
                online = true;
                assert(iv[i as int].online);
                let found = self.services_of(&id.alias, &id.protocols);
                let mut k: usize = 0;
                while k < found.len()
                    invariant
                        k <= found.len(),
                        out@.map_values(|s: ServiceStart| s@) == before + found@.map_values(|s: ServiceStart| s@).take(
                            k as int,
                        ),
                    decreases found.len() - k,
                {
                    let ghost mid = out@.map_values(|s: ServiceStart| s@);
                    let f = &found[k];
                    let s = ServiceStart {
                        identity: f.identity.clone(),
                        protocol: f.protocol.clone(),
                        bind_alias: f.bind_alias.clone(),
                        protocol_dir: f.protocol_dir.clone(),
                        requests: f.requests,
                        streams: f.streams,
                    };
                    out.push(s);
                    assert(out@.map_values(|s: ServiceStart| s@) =~= mid.push(found@[k as int]@));
                    assert(found@.map_values(|s: ServiceStart| s@).take(k + 1) =~= found@.map_values(
                        |s: ServiceStart| s@,
                    ).take(k as int).push(found@[k as int]@));
                    k = k + 1;
                }
                assert(found@.map_values(|s: ServiceStart| s@).take(found.len() as int) =~= found@.map_values(
                    |s: ServiceStart| s@,
                ));
            }
            i = i + 1;
        }
        assert(iv.take(identities.len() as int) =~= iv);
        if !online {
            return Err(owned("No online identities found. Set identities online with: fastn-p2p identity-online <name>"));
        }
        Ok(out)
    }
}

/// The first registered protocol with a name is the one `lookup_protocol` gives.
proof fn lemma_lookup_first(protocols: Seq<ProtocolBuilderSpec>, name: Seq<char>)
    ensures
        forall|i: int|
            0 <= i < protocols.len() && protocols[i].name == name && (forall|j: int|
                0 <= j < i ==> protocols[j].name != name) ==> lookup_protocol(protocols, name) == Some(
                protocols[i],
            ),
        (forall|j: int| 0 <= j < protocols.len() ==> protocols[j].name != name) ==> lookup_protocol(
            protocols,
            name,
        ) is None,
    decreases protocols.len(),
{
    if protocols.len() > 0 {
        lemma_lookup_first(protocols.drop_first(), name);
        assert forall|i: int|
            0 <= i < protocols.len() && protocols[i].name == name && (forall|j: int|
                0 <= j < i ==> protocols[j].name != name) implies lookup_protocol(protocols, name) == Some(
            protocols[i],
        ) by {
            if i > 0 {
                assert(protocols[0].name != name);
                assert(protocols.drop_first()[i - 1] == protocols[i]);
                assert forall|j: int| 0 <= j < i - 1 implies protocols.drop_first()[j].name != name by {
                    assert(protocols.drop_first()[j] == protocols[j + 1]);
                }
            }
        }
        if forall|j: int| 0 <= j < protocols.len() ==> protocols[j].name != name {
            assert forall|j: int| 0 <= j < protocols.drop_first().len() implies protocols.drop_first()[j].name
                != name by {
                assert(protocols.drop_first()[j] == protocols[j + 1]);
            }
        }
    }
}

// ---------------------------------------------------------------- plan laws

/// A lookup only finds a protocol of that name that is registered.
proof fn lemma_lookup_found(protocols: Seq<ProtocolBuilderSpec>, name: Seq<char>)
    ensures
        lookup_protocol(protocols, name) matches Some(p) ==> p.name == name && protocols.contains(p),
    decreases protocols.len(),
{
    if protocols.len() > 0 && protocols[0].name != name {
        lemma_lookup_found(protocols.drop_first(), name);
        if lookup_protocol(protocols, name) is Some {
            let p = lookup_protocol(protocols, name)->0;
            let i = choose|i: int| 0 <= i < protocols.drop_first().len() && protocols.drop_first()[i] == p;
            assert(protocols[i + 1] == p);
        }
    } else if protocols.len() > 0 {
        assert(protocols[0] == protocols[0]);
    }
}

/// What it means for `s` to serve binding `b` of identity `alias` with protocol `p`.
pub open spec fn serves_binding(s: ServiceSpec, alias: Seq<char>, b: BindingSpec, p: ProtocolBuilderSpec) -> bool {
    &&& s.identity == alias
    &&& s.protocol == b.protocol
    &&& s.bind_alias == b.bind_alias
    &&& s.protocol_dir == b.config_path
    &&& p.name == b.protocol
    &&& s.requests == (p.requests.len() > 0)
    &&& s.streams == (p.streams.len() > 0)
}

proof fn lemma_binding_services_sound(
    alias: Seq<char>,
    bindings: Seq<BindingSpec>,
    protocols: Seq<ProtocolBuilderSpec>,
    k: int,
)
    requires
        0 <= k < binding_services(alias, bindings, protocols).len(),
    ensures
        exists|j: int, p: ProtocolBuilderSpec|
            0 <= j < bindings.len() && protocols.contains(p) && #[trigger] serves_binding(
                binding_services(alias, bindings, protocols)[k],
                alias,
                bindings[j],
                p,
            ),
    decreases bindings.len(),
{
    let rest = binding_services(alias, bindings.drop_last(), protocols);
    let b = bindings.last();
    lemma_lookup_found(protocols, b.protocol);
    if k < rest.len() {
        lemma_binding_services_sound(alias, bindings.drop_last(), protocols, k);
        let (j, p) = choose|j: int, p: ProtocolBuilderSpec|
            0 <= j < bindings.drop_last().len() && protocols.contains(p) && #[trigger] serves_binding(
                rest[k],
                alias,
                bindings.drop_last()[j],
                p,
            );
        assert(bindings.drop_last()[j] == bindings[j]);
        assert(serves_binding(binding_services(alias, bindings, protocols)[k], alias, bindings[j], p));
    } else {
        let p = lookup_protocol(protocols, b.protocol)->0;
        assert(serves_binding(binding_services(alias, bindings, protocols)[k], alias, bindings[bindings.len() - 1], p));
    }
}

/// Every planned service serves a binding of an online identity with a
/// registered protocol of that name: offline identities and unregistered
/// protocols are never served.
pub proof fn lemma_planned_services_sound(
    identities: Seq<IdentitySpec>,
    protocols: Seq<ProtocolBuilderSpec>,
    k: int,
)
    requires
        0 <= k < planned_services(identities, protocols).len(),
    ensures
        exists|i: int, j: int, p: ProtocolBuilderSpec|
            0 <= i < identities.len() && identities[i].online && 0 <= j < identities[i].protocols.len()
                && protocols.contains(p) && #[trigger] serves_binding(
                planned_services(identities, protocols)[k],
                identities[i].alias,
                identities[i].protocols[j],
                p,
            ),
    decreases identities.len(),
{
    let rest = planned_services(identities.drop_last(), protocols);
    let id = identities.last();
    let n = identities.len() - 1;
    if k < rest.len() {
        lemma_planned_services_sound(identities.drop_last(), protocols, k);
        let (i, j, p) = choose|i: int, j: int, p: ProtocolBuilderSpec|
            0 <= i < identities.drop_last().len() && identities.drop_last()[i].online && 0 <= j
                < identities.drop_last()[i].protocols.len() && protocols.contains(p) && #[trigger] serves_binding(
                rest[k],
                identities.drop_last()[i].alias,
                identities.drop_last()[i].protocols[j],
                p,
            );
        assert(identities.drop_last()[i] == identities[i]);
        if id.online {
            assert(planned_services(identities, protocols)[k] == rest[k]);
        }
        assert(serves_binding(planned_services(identities, protocols)[k], identities[i].alias, identities[i].protocols[j], p));
    } else {
        assert(id.online);
        let bs = binding_services(id.alias, id.protocols, protocols);
        assert(planned_services(identities, protocols) == rest + bs);
        lemma_binding_services_sound(id.alias, id.protocols, protocols, k - rest.len());
        let (j, p) = choose|j: int, p: ProtocolBuilderSpec|
            0 <= j < id.protocols.len() && protocols.contains(p) && #[trigger] serves_binding(
                bs[k - rest.len()],
                id.alias,
                id.protocols[j],
                p,
            );
        assert(planned_services(identities, protocols)[k] == bs[k - rest.len()]);
        assert(serves_binding(planned_services(identities, protocols)[k], identities[n].alias, identities[n].protocols[j], p));
    }
}

/// A lookup finds a protocol whenever one of that name is registered.
proof fn lemma_lookup_registered(protocols: Seq<ProtocolBuilderSpec>, q: ProtocolBuilderSpec)
    requires
        protocols.contains(q),
    ensures
        lookup_protocol(protocols, q.name) is Some,
    decreases protocols.len(),
{
    if protocols[0].name != q.name {
        let i = choose|i: int| 0 <= i < protocols.len() && protocols[i] == q;
        assert(i > 0);
        assert(protocols.drop_first()[i - 1] == q);
        lemma_lookup_registered(protocols.drop_first(), q);
    }
}

proof fn lemma_binding_services_complete(
    alias: Seq<char>,
    bindings: Seq<BindingSpec>,
    protocols: Seq<ProtocolBuilderSpec>,
    j: int,
    q: ProtocolBuilderSpec,
)
    requires
        0 <= j < bindings.len(),
        protocols.contains(q),
        q.name == bindings[j].protocol,
    ensures
        exists|k: int, p: ProtocolBuilderSpec|
            0 <= k < binding_services(alias, bindings, protocols).len() && protocols.contains(p)
                && #[trigger] serves_binding(binding_services(alias, bindings, protocols)[k], alias, bindings[j], p),
    decreases bindings.len(),
{
    let rest = binding_services(alias, bindings.drop_last(), protocols);
    let b = bindings.last();
    if j < bindings.len() - 1 {
        lemma_binding_services_complete(alias, bindings.drop_last(), protocols, j, q);
        assert(bindings.drop_last()[j] == bindings[j]);
        let (k, p) = choose|k: int, p: ProtocolBuilderSpec|
            0 <= k < rest.len() && protocols.contains(p) && #[trigger] serves_binding(
                rest[k],
                alias,
                bindings.drop_last()[j],
                p,
            );
        lemma_lookup_found(protocols, b.protocol);
        assert(binding_services(alias, bindings, protocols)[k] == rest[k]);
        assert(serves_binding(binding_services(alias, bindings, protocols)[k], alias, bindings[j], p));
    } else {
        lemma_lookup_registered(protocols, q);
        lemma_lookup_found(protocols, b.protocol);
        let p = lookup_protocol(protocols, b.protocol)->0;
        let all = binding_services(alias, bindings, protocols);
        assert(all.len() == rest.len() + 1);
        assert(serves_binding(all[rest.len() as int], alias, bindings[j], p));
    }
}

/// Every binding of every online identity whose protocol is registered is
/// served: some planned service serves it with a registered protocol of
/// that name.
pub proof fn lemma_planned_services_complete(
    identities: Seq<IdentitySpec>,
    protocols: Seq<ProtocolBuilderSpec>,
    i: int,
    j: int,
    q: ProtocolBuilderSpec,
)
    requires
        0 <= i < identities.len(),
        identities[i].online,
        0 <= j < identities[i].protocols.len(),
        protocols.contains(q),
        q.name == identities[i].protocols[j].protocol,
    ensures
        exists|k: int, p: ProtocolBuilderSpec|
            0 <= k < planned_services(identities, protocols).len() && protocols.contains(p)
                && #[trigger] serves_binding(
                planned_services(identities, protocols)[k],
                identities[i].alias,
                identities[i].protocols[j],
                p,
            ),
    decreases identities.len(),
{
    let rest = planned_services(identities.drop_last(), protocols);
    let id = identities.last();
    let all = planned_services(identities, protocols);
    if i < identities.len() - 1 {
        assert(identities.drop_last()[i] == identities[i]);
        lemma_planned_services_complete(identities.drop_last(), protocols, i, j, q);
        let (k, p) = choose|k: int, p: ProtocolBuilderSpec|
            0 <= k < rest.len() && protocols.contains(p) && #[trigger] serves_binding(
                rest[k],
                identities.drop_last()[i].alias,
                identities.drop_last()[i].protocols[j],
                p,
            );
        assert(all[k] == rest[k]);
        assert(serves_binding(all[k], identities[i].alias, identities[i].protocols[j], p));
    } else {
        let bs = binding_services(id.alias, id.protocols, protocols);
        assert(all == rest + bs);
        lemma_binding_services_complete(id.alias, id.protocols, protocols, j, q);
        let (k, p) = choose|k: int, p: ProtocolBuilderSpec|
            0 <= k < bs.len() && protocols.contains(p) && #[trigger] serves_binding(bs[k], id.alias, id.protocols[j], p);
        assert(all[rest.len() + k] == bs[k]);
        assert(serves_binding(all[rest.len() + k], identities[i].alias, identities[i].protocols[j], p));
    }
}

// ---------------------------------------------------------------- echo command

/// The echo command's answer: the message (`"(no message)"` when the request
/// has none) echoed back with the identity and command, or an error for an
/// empty message.
pub open spec fn echo_command_reply(identity: Seq<char>, command: Seq<char>, message: Option<Seq<char>>) -> Result<Seq<char>, Seq<char>> {
    let m = match message {
        Some(m) => m,
        None => "(no message)"@,
    };
    if m.len() == 0 {
        Err("Message cannot be empty"@)
    } else {
        Ok("Echo from "@ + identity + " ("@ + command + "): "@ + m)
    }
}

/// The echo command's answer to a request whose `message` field (as text) is `message`.
pub fn echo_request_reply(identity: &str, command: &str, message: Option<String>) -> (r: Result<String, String>)
    ensures
        match r {
            Ok(s) => echo_command_reply(identity@, command@, message.deep_view()) == Ok::<Seq<char>, Seq<char>>(s@),
            Err(e) => echo_command_reply(identity@, command@, message.deep_view()) == Err::<Seq<char>, Seq<char>>(e@),
        },
{
    let m = match message {
        Some(m) => m,
        None => owned("(no message)"),
    };
    if m.as_str().is_empty() {
        return Err(owned("Message cannot be empty"));
    }
    let a = concat("Echo from ", identity);
    let b = concat(a.as_str(), " (");
    let c = concat(b.as_str(), command);
    let d = concat(c.as_str(), "): ");
    let e = concat(d.as_str(), m.as_str());
    assert(e@ =~= "Echo from "@ + identity@ + " ("@ + command@ + "): "@ + m@);
    Ok(e)
}

} // verus!
