//! The daemon's registry of built-in protocols, and dispatch by name.

use vstd::prelude::*;
use crate::text::{concat, str_eq};
use super::protocols::echo::EchoProtocol;
use super::protocols::shell::ShellProtocol;

verus! {

/// The protocols the daemon can load.
#[derive(Clone, Copy, Debug, PartialEq, Eq, Structural)]
pub enum BuiltinProtocol {
    Echo,
    Shell,
}

/// The names of the protocols the daemon can load, in order.
pub open spec fn available_protocols() -> Seq<Seq<char>> {
    seq!["Echo"@, "Shell"@]
}

/// The names of all protocols that the daemon can load.
pub fn get_available_protocols() -> (v: Vec<&'static str>)
    ensures
        v@.map_values(|s: &str| s@) == available_protocols(),
{
    let v = vec![EchoProtocol::NAME, ShellProtocol::NAME];
    assert(v@.map_values(|s: &str| s@) =~= available_protocols());
    v
}

/// The protocol named `name`, or the message for an unknown one.
pub open spec fn resolve_protocol_spec(name: Seq<char>) -> Result<BuiltinProtocol, Seq<char>> {
    if name == "Echo"@ {
        Ok(BuiltinProtocol::Echo)
    } else if name == "Shell"@ {
        Ok(BuiltinProtocol::Shell)
    } else {
        Err("Unknown protocol: "@ + name)
    }
}

/// The protocol to load, initialize or check under `name`.
pub fn resolve_protocol(name: &str) -> (r: Result<BuiltinProtocol, String>)
    ensures
        match r {
            Ok(p) => resolve_protocol_spec(name@) == Ok::<BuiltinProtocol, Seq<char>>(p),
            Err(m) => resolve_protocol_spec(name@) == Err::<BuiltinProtocol, Seq<char>>(m@),
        },
{
    if str_eq(name, "Echo") {
        Ok(BuiltinProtocol::Echo)
    } else if str_eq(name, "Shell") {
        Ok(BuiltinProtocol::Shell)
    } else {
        Err(concat("Unknown protocol: ", name))
    }
}

/// Every available protocol resolves, and to itself.
pub proof fn lemma_available_protocols_resolve()
    ensures
        resolve_protocol_spec(available_protocols()[0]) == Ok::<BuiltinProtocol, Seq<char>>(BuiltinProtocol::Echo),
        resolve_protocol_spec(available_protocols()[1]) == Ok::<BuiltinProtocol, Seq<char>>(BuiltinProtocol::Shell),
{
    reveal_strlit("Echo");
    reveal_strlit("Shell");
    assert("Shell"@ != "Echo"@) by {
        assert("Shell"@[0] != "Echo"@[0]);
    }
}

} // verus!
