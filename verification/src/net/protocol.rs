//! Protocol identification for streams multiplexed over one connection.
//!
//! Every bidirectional stream starts with a protocol header naming what the
//! stream carries.  Built-in protocols have fixed names; `Application`
//! protocols carry their name and a routing triple (command, binding alias,
//! arguments); `Generic` protocols carry a JSON value, held here as its
//! compact JSON text.

use vstd::prelude::*;
use crate::text::{owned, concat};

verus! {

/// The protocol a stream speaks.
pub enum Protocol {
    Ping,
    WhatTimeIsIt,
    Http,
    HttpProxy,
    Socks5,
    Tcp,
    /// A per-application protocol, named like `"mail.fastn.com"`.
    Application(String),
    /// A protocol identified by a JSON value (its compact JSON text).
    Generic(String),
}

/// The mathematical value of a [`Protocol`].
pub enum ProtocolSpec {
    Ping,
    WhatTimeIsIt,
    Http,
    HttpProxy,
    Socks5,
    Tcp,
    Application(Seq<char>),
    Generic(Seq<char>),
}

impl View for Protocol {
    type V = ProtocolSpec;

    open spec fn view(&self) -> ProtocolSpec {
        match self {
            Protocol::Ping => ProtocolSpec::Ping,
            Protocol::WhatTimeIsIt => ProtocolSpec::WhatTimeIsIt,
            Protocol::Http => ProtocolSpec::Http,
            Protocol::HttpProxy => ProtocolSpec::HttpProxy,
            Protocol::Socks5 => ProtocolSpec::Socks5,
            Protocol::Tcp => ProtocolSpec::Tcp,
            Protocol::Application(name) => ProtocolSpec::Application(name@),
            Protocol::Generic(json) => ProtocolSpec::Generic(json@),
        }
    }
}

/// How a protocol is shown to people: its name, the application name, or
/// `Generic(<json>)`.
pub open spec fn protocol_display(p: ProtocolSpec) -> Seq<char> {
    match p {
        ProtocolSpec::Ping => "Ping"@,
        ProtocolSpec::WhatTimeIsIt => "WhatTimeIsIt"@,
        ProtocolSpec::Http => "Http"@,
        ProtocolSpec::HttpProxy => "HttpProxy"@,
        ProtocolSpec::Socks5 => "Socks5"@,
        ProtocolSpec::Tcp => "Tcp"@,
        ProtocolSpec::Application(name) => name,
        ProtocolSpec::Generic(json) => "Generic("@ + json + ")"@,
    }
}

impl Clone for Protocol {
    fn clone(&self) -> (r: Self)
        ensures
            r@ == self@,
    {
        match self {
            Protocol::Ping => Protocol::Ping,
            Protocol::WhatTimeIsIt => Protocol::WhatTimeIsIt,
            Protocol::Http => Protocol::Http,
            Protocol::HttpProxy => Protocol::HttpProxy,
            Protocol::Socks5 => Protocol::Socks5,
            Protocol::Tcp => Protocol::Tcp,
            Protocol::Application(name) => Protocol::Application(name.clone()),
            Protocol::Generic(json) => Protocol::Generic(json.clone()),
        }
    }
}

impl Protocol {
    /// The text shown for this protocol.
    pub fn to_display_string(&self) -> (s: String)
        ensures
            s@ == protocol_display(self@),
    {
        match self {
            Protocol::Ping => owned("Ping"),
            Protocol::WhatTimeIsIt => owned("WhatTimeIsIt"),
            Protocol::Http => owned("Http"),
            Protocol::HttpProxy => owned("HttpProxy"),
            Protocol::Socks5 => owned("Socks5"),
            Protocol::Tcp => owned("Tcp"),
            Protocol::Application(name) => name.clone(),
            Protocol::Generic(json) => {
                let head = concat("Generic(", json.as_str());
                let s = concat(head.as_str(), ")");
                assert(s@ =~= "Generic("@ + json@ + ")"@);
                s
            },
        }
    }

    /// Whether this is the `Generic` protocol whose JSON text is `json`.
    pub fn is_generic_json(&self, json: &str) -> (b: bool)
        ensures
            b == (self@ == ProtocolSpec::Generic(json@)),
    {
        match self {
            Protocol::Generic(j) => crate::text::str_eq(j.as_str(), json),
            _ => false,
        }
    }
}

/// Identifier offered during the connection handshake; one for every fastn
/// entity connection, with protocols multiplexed above it.
pub const APNS_IDENTITY: &'static str = "/fastn/entity/0.1";

/// The acknowledgement line a peer sends once it accepts a stream's protocol.
pub const ACK: &'static str = "ack";

/// Header sent at the start of each bidirectional stream.
pub struct ProtocolHeader {
    /// Protocol identifier.
    pub protocol: Protocol,
    /// Command within the protocol (application protocols only).
    pub command: Option<String>,
    /// Protocol binding alias (application protocols only).
    pub bind_alias: Option<String>,
    /// Command-line style arguments.
    pub args: Vec<String>,
    /// Extra protocol data kept for older peers.
    pub extra: Option<String>,
}

/// The mathematical value of a [`ProtocolHeader`].
pub struct ProtocolHeaderSpec {
    pub protocol: ProtocolSpec,
    pub command: Option<Seq<char>>,
    pub bind_alias: Option<Seq<char>>,
    pub args: Seq<Seq<char>>,
    pub extra: Option<Seq<char>>,
}

impl View for ProtocolHeader {
    type V = ProtocolHeaderSpec;

    open spec fn view(&self) -> ProtocolHeaderSpec {
        ProtocolHeaderSpec {
            protocol: self.protocol@,
            command: self.command.deep_view(),
            bind_alias: self.bind_alias.deep_view(),
            args: self.args.deep_view(),
            extra: self.extra.deep_view(),
        }
    }
}

/// The header of a built-in protocol: no command, alias, arguments or extra data.
pub open spec fn builtin_header(p: ProtocolSpec) -> ProtocolHeaderSpec {
    ProtocolHeaderSpec { protocol: p, command: None, bind_alias: None, args: Seq::empty(), extra: None }
}

/// The routing triple (plus arguments) of an application protocol header.
pub open spec fn routing_of(h: ProtocolHeaderSpec) -> Option<(Seq<char>, Seq<char>, Seq<char>, Seq<Seq<char>>)> {
    match h.protocol {
        ProtocolSpec::Application(name) => match (h.command, h.bind_alias) {
            (Some(command), Some(alias)) => Some((name, command, alias, h.args)),
            _ => None,
        },
        _ => None,
    }
}

impl ProtocolHeader {
    /// The header of a built-in protocol (what converting a `Protocol` into a
    /// header gives): no command, alias, arguments or extra data.
    pub fn from_protocol(protocol: Protocol) -> (h: Self)
        ensures
            h@ == builtin_header(protocol@),
    {
        let h = ProtocolHeader { protocol, command: None, bind_alias: None, args: Vec::new(), extra: None };
        assert(h@.args =~= Seq::<Seq<char>>::empty());
        h
    }

    /// The header of an application protocol with its routing information.
    pub fn for_application(
        protocol_name: String,
        command: String,
        bind_alias: String,
        args: Vec<String>,
    ) -> (h: Self)
        ensures
            h@.protocol == ProtocolSpec::Application(protocol_name@),
            h@.command == Some(command@),
            h@.bind_alias == Some(bind_alias@),
            h@.args == args.deep_view(),
            h@.extra is None,
            routing_of(h@) == Some((protocol_name@, command@, bind_alias@, args.deep_view())),
    {
        ProtocolHeader {
            protocol: Protocol::Application(protocol_name),
            command: Some(command),
            bind_alias: Some(bind_alias),
            args,
            extra: None,
        }
    }

    /// Routing information for an application protocol: name, command,
    /// binding alias and arguments; `None` for built-in protocols and for
    /// application headers without a command or alias.
    pub fn serve_all_routing(&self) -> (r: Option<(&str, &str, &str, &[String])>)
        ensures
            match r {
                Some((name, command, alias, args)) => routing_of(self@) == Some(
                    (name@, command@, alias@, args.deep_view()),
                ),
                None => routing_of(self@) is None,
            },
    {
        match &self.protocol {
            Protocol::Application(protocol_name) => {
                match (&self.command, &self.bind_alias) {
                    (Some(command), Some(bind_alias)) => Some(
                        (protocol_name.as_str(), command.as_str(), bind_alias.as_str(), self.args.as_slice()),
                    ),
                    _ => None,
                }
            },
            _ => None,
        }
    }

    /// Whether the header names a built-in protocol (anything but an application protocol).
    pub fn is_builtin(&self) -> (b: bool)
        ensures
            b == !(self@.protocol is Application),
    {
        match &self.protocol {
            Protocol::Application(_) => false,
            _ => true,
        }
    }
}

} // verus!
