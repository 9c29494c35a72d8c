//! Management commands of a server program.
//!
//! A server program started as `<program> <command> ...` runs one management
//! command instead of serving: `init`, `call`, `stream`, `create-identity`,
//! `add-protocol`, `remove-protocol`, `status`, `identity-online` or
//! `identity-offline`.  `run`, an unknown word, or no argument at all means
//! serving.  Missing positional arguments print a usage line and end the
//! program; a missing identity or `--protocol` is an error.

use vstd::prelude::*;
use crate::text::{concat, owned, str_eq};

verus! {

/// A management command, or serving.
#[derive(Debug)]
pub enum ServeCommand {
    Init,
    Call { peer: String, protocol: String, bind_alias: String },
    Stream { peer: String, protocol: String },
    CreateIdentity { alias: String },
    AddProtocol { identity: String, protocol: String, alias: String, config: String },
    RemoveProtocol { identity: String, protocol: String, alias: String },
    Status,
    IdentityOnline { identity: String },
    IdentityOffline { identity: String },
    Serve,
}

/// The mathematical value of a [`ServeCommand`].
pub enum CommandSpec {
    Init,
    Call { peer: Seq<char>, protocol: Seq<char>, bind_alias: Seq<char> },
    Stream { peer: Seq<char>, protocol: Seq<char> },
    CreateIdentity { alias: Seq<char> },
    AddProtocol { identity: Seq<char>, protocol: Seq<char>, alias: Seq<char>, config: Seq<char> },
    RemoveProtocol { identity: Seq<char>, protocol: Seq<char>, alias: Seq<char> },
    Status,
    IdentityOnline { identity: Seq<char> },
    IdentityOffline { identity: Seq<char> },
    Serve,
}

impl View for ServeCommand {
    type V = CommandSpec;

    open spec fn view(&self) -> CommandSpec {
        match self {
            ServeCommand::Init => CommandSpec::Init,
            ServeCommand::Call { peer, protocol, bind_alias } => CommandSpec::Call {
                peer: peer@,
                protocol: protocol@,
                bind_alias: bind_alias@,
            },
            ServeCommand::Stream { peer, protocol } => CommandSpec::Stream { peer: peer@, protocol: protocol@ },
            ServeCommand::CreateIdentity { alias } => CommandSpec::CreateIdentity { alias: alias@ },
            ServeCommand::AddProtocol { identity, protocol, alias, config } => CommandSpec::AddProtocol {
                identity: identity@,
                protocol: protocol@,
                alias: alias@,
                config: config@,
            },
            ServeCommand::RemoveProtocol { identity, protocol, alias } => CommandSpec::RemoveProtocol {
                identity: identity@,
                protocol: protocol@,
                alias: alias@,
            },
            ServeCommand::Status => CommandSpec::Status,
            ServeCommand::IdentityOnline { identity } => CommandSpec::IdentityOnline { identity: identity@ },
            ServeCommand::IdentityOffline { identity } => CommandSpec::IdentityOffline { identity: identity@ },
            ServeCommand::Serve => CommandSpec::Serve,
        }
    }
}

/// Why the arguments do not make a command.
#[derive(Debug)]
pub enum CommandError {
    /// Print `message` on standard error and end the program with status 1.
    Usage { message: String },
    /// The command fails with `message`.
    Invalid { message: String },
}

/// The mathematical value of a [`CommandError`].
pub enum CommandErrorSpec {
    Usage { message: Seq<char> },
    Invalid { message: Seq<char> },
}

impl View for CommandError {
    type V = CommandErrorSpec;

    open spec fn view(&self) -> CommandErrorSpec {
        match self {
            CommandError::Usage { message } => CommandErrorSpec::Usage { message: message@ },
            CommandError::Invalid { message } => CommandErrorSpec::Invalid { message: message@ },
        }
    }
}

/// State of scanning the arguments of `add-protocol` or `remove-protocol`.
pub struct BindingArgs {
    pub identity: Option<Seq<char>>,
    pub protocol: Option<Seq<char>>,
    pub alias: Seq<char>,
    pub config: Seq<char>,
}

/// Scans `args` from index `i`: `--protocol`, `--alias` and (when
/// `with_config`) `--config` take the next argument as their value, the
/// first other argument is the identity, and later ones are ignored.  A flag
/// with no argument after it is an error naming the flag.
pub open spec fn scan_binding_args(args: Seq<Seq<char>>, i: int, st: BindingArgs, with_config: bool) -> Result<BindingArgs, Seq<char>>
    decreases args.len() - i,
{
    if i < 0 || i >= args.len() {
        Ok(st)
    } else if args[i] == "--protocol"@ {
        if i + 1 < args.len() {
            scan_binding_args(args, i + 2, BindingArgs { protocol: Some(args[i + 1]), ..st }, with_config)
        } else {
            Err("--protocol requires a value"@)
        }
    } else if args[i] == "--alias"@ {
        if i + 1 < args.len() {
            scan_binding_args(args, i + 2, BindingArgs { alias: args[i + 1], ..st }, with_config)
        } else {
            Err("--alias requires a value"@)
        }
    } else if with_config && args[i] == "--config"@ {
        if i + 1 < args.len() {
            scan_binding_args(args, i + 2, BindingArgs { config: args[i + 1], ..st }, with_config)
        } else {
            Err("--config requires a value"@)
        }
    } else {
        let next = if st.identity is None {
            BindingArgs { identity: Some(args[i]), ..st }
        } else {
            st
        };
        scan_binding_args(args, i + 1, next, with_config)
    }
}

/// The scan's starting state: no identity or protocol, alias `default`, config `{}`.
pub open spec fn initial_binding_args() -> BindingArgs {
    BindingArgs { identity: None, protocol: None, alias: "default"@, config: "{}"@ }
}

/// The `add-protocol` / `remove-protocol` command from its arguments.
pub open spec fn binding_command(args: Seq<Seq<char>>, add: bool) -> Result<CommandSpec, CommandErrorSpec> {
    match scan_binding_args(args, 2, initial_binding_args(), add) {
        Err(m) => Err(CommandErrorSpec::Usage { message: m }),
        Ok(st) => match st.identity {
            None => Err(CommandErrorSpec::Invalid { message: "Missing identity argument"@ }),
            Some(identity) => match st.protocol {
                None => Err(CommandErrorSpec::Invalid { message: "Missing --protocol argument"@ }),
                Some(protocol) => if add {
                    Ok(CommandSpec::AddProtocol { identity, protocol, alias: st.alias, config: st.config })
                } else {
                    Ok(CommandSpec::RemoveProtocol { identity, protocol, alias: st.alias })
                },
            },
        },
    }
}

/// The usage line of a command for program `program`.
pub open spec fn usage(program: Seq<char>, rest: Seq<char>) -> CommandErrorSpec {
    CommandErrorSpec::Usage { message: "Usage: "@ + program + rest }
}

/// The command the arguments (program name first) ask for.
pub open spec fn serve_command(args: Seq<Seq<char>>) -> Result<CommandSpec, CommandErrorSpec> {
    if args.len() <= 1 {
        Ok(CommandSpec::Serve)
    } else {
        let w = args[1];
        if w == "init"@ {
            Ok(CommandSpec::Init)
        } else if w == "call"@ {
            if args.len() < 4 {
                Err(usage(args[0], " call <peer> <protocol> [bind_alias] [--as-identity <identity>]"@))
            } else {
                Ok(CommandSpec::Call {
                    peer: args[2],
                    protocol: args[3],
                    bind_alias: if args.len() > 4 {
                        args[4]
                    } else {
                        "default"@
                    },
                })
            }
        } else if w == "stream"@ {
            if args.len() < 4 {
                Err(usage(args[0], " stream <peer> <protocol>"@))
            } else {
                Ok(CommandSpec::Stream { peer: args[2], protocol: args[3] })
            }
        } else if w == "create-identity"@ {
            if args.len() < 3 {
                Err(usage(args[0], " create-identity <alias>"@))
            } else {
                Ok(CommandSpec::CreateIdentity { alias: args[2] })
            }
        } else if w == "add-protocol"@ {
            binding_command(args, true)
        } else if w == "remove-protocol"@ {
            binding_command(args, false)
        } else if w == "status"@ {
            Ok(CommandSpec::Status)
        } else if w == "identity-online"@ {
            if args.len() < 3 {
                Err(usage(args[0], " identity-online <identity>"@))
            } else {
                Ok(CommandSpec::IdentityOnline { identity: args[2] })
            }
        } else if w == "identity-offline"@ {
            if args.len() < 3 {
                Err(usage(args[0], " identity-offline <identity>"@))
            } else {
                Ok(CommandSpec::IdentityOffline { identity: args[2] })
            }
        } else {
            Ok(CommandSpec::Serve)
        }
    }
}

/// The mathematical value of a scan state held in strings.
pub open spec fn scan_view(identity: Option<String>, protocol: Option<String>, alias: String, config: String) -> BindingArgs {
    BindingArgs { identity: identity.deep_view(), protocol: protocol.deep_view(), alias: alias@, config: config@ }
}

/// Parses the arguments of `add-protocol` (`add`) or `remove-protocol`.
fn parse_binding_args(args: &Vec<String>, add: bool) -> (r: Result<ServeCommand, CommandError>)
    requires
        args.len() >= 2,
    ensures
        match r {
            Ok(c) => binding_command(args.deep_view(), add) == Ok::<CommandSpec, CommandErrorSpec>(c@),
            Err(e) => binding_command(args.deep_view(), add) == Err::<CommandSpec, CommandErrorSpec>(e@),
        },
{
    let ghost av = args.deep_view();
    let mut identity: Option<String> = None;
    let mut protocol: Option<String> = None;
    let mut alias = owned("default");
    let mut config = owned("{}");
    let mut i: usize = 2;
    while i < args.len()
        invariant
            2 <= i,
            av == args.deep_view(),
            scan_binding_args(av, 2, initial_binding_args(), add) == scan_binding_args(
                av,
                i as int,
                scan_view(identity, protocol, alias, config),
                add,
            ),
        decreases args.len() - i,
    {
        let a = args[i].as_str();
        if str_eq(a, "--protocol") {
            if i + 1 < args.len() {
                protocol = Some(args[i + 1].clone());
                i = i + 2;
            } else {
                return Err(CommandError::Usage { message: owned("--protocol requires a value") });
            }
        } else if str_eq(a, "--alias") {
            if i + 1 < args.len() {
                alias = args[i + 1].clone();
                i = i + 2;
            } else {
                return Err(CommandError::Usage { message: owned("--alias requires a value") });
            }
        } else if add && str_eq(a, "--config") {
            if i + 1 < args.len() {
                config = args[i + 1].clone();
                i = i + 2;
            } else {
                return Err(CommandError::Usage { message: owned("--config requires a value") });
            }
        } else {
            if identity.is_none() {
                identity = Some(args[i].clone());
            }
            i = i + 1;
        }
    }
    match identity {
        None => Err(CommandError::Invalid { message: owned("Missing identity argument") }),
        Some(identity) => match protocol {
            None => Err(CommandError::Invalid { message: owned("Missing --protocol argument") }),
            Some(protocol) => if add {
                Ok(ServeCommand::AddProtocol { identity, protocol, alias, config })
            } else {
                Ok(ServeCommand::RemoveProtocol { identity, protocol, alias })
            },
        },
    }
}

/// A usage error for program `program`.
fn usage_error(program: &str, rest: &str) -> (e: CommandError)
    ensures
        e@ == usage(program@, rest@),
{
    let head = concat("Usage: ", program);
    let message = concat(head.as_str(), rest);
    assert(message@ =~= "Usage: "@ + program@ + rest@);
    CommandError::Usage { message }
}

/// The command the program's arguments (program name first) ask for.
pub fn parse_command(args: &Vec<String>) -> (r: Result<ServeCommand, CommandError>)
    ensures
        match r {
            Ok(c) => serve_command(args.deep_view()) == Ok::<CommandSpec, CommandErrorSpec>(c@),
            Err(e) => serve_command(args.deep_view()) == Err::<CommandSpec, CommandErrorSpec>(e@),
        },
{
    if args.len() <= 1 {
        return Ok(ServeCommand::Serve);
    }
    let w = args[1].as_str();
    let program = args[0].as_str();
    if str_eq(w, "init") {
        Ok(ServeCommand::Init)
    } else if str_eq(w, "call") {
        if args.len() < 4 {
            Err(usage_error(program, " call <peer> <protocol> [bind_alias] [--as-identity <identity>]"))
        } else {
            let bind_alias = if args.len() > 4 {
                args[4].clone()
            } else {
                owned("default")
            };
            Ok(ServeCommand::Call { peer: args[2].clone(), protocol: args[3].clone(), bind_alias })
        }
    } else if str_eq(w, "stream") {
        if args.len() < 4 {
            Err(usage_error(program, " stream <peer> <protocol>"))
        } else {
            Ok(ServeCommand::Stream { peer: args[2].clone(), protocol: args[3].clone() })
        }
    } else if str_eq(w, "create-identity") {
        if args.len() < 3 {
            Err(usage_error(program, " create-identity <alias>"))
        } else {
            Ok(ServeCommand::CreateIdentity { alias: args[2].clone() })
        }
    } else if str_eq(w, "add-protocol") {
        parse_binding_args(args, true)
    } else if str_eq(w, "remove-protocol") {
        parse_binding_args(args, false)
    } else if str_eq(w, "status") {
        Ok(ServeCommand::Status)
    } else if str_eq(w, "identity-online") {
        if args.len() < 3 {
            Err(usage_error(program, " identity-online <identity>"))
        } else {
            Ok(ServeCommand::IdentityOnline { identity: args[2].clone() })
        }
    } else if str_eq(w, "identity-offline") {
        if args.len() < 3 {
            Err(usage_error(program, " identity-offline <identity>"))
        } else {
            Ok(ServeCommand::IdentityOffline { identity: args[2].clone() })
        }
    } else {
        Ok(ServeCommand::Serve)
    }
}

/// The command words and flags differ from one another.
proof fn lemma_words_differ()
    ensures
        "init"@.len() == 4 && "init"@[0] == 'i',
        "call"@.len() == 4 && "call"@[0] == 'c',
        "stream"@.len() == 6 && "stream"@[2] == 'r',
        "status"@.len() == 6 && "status"@[2] == 'a',
        "create-identity"@.len() == 15 && "create-identity"@[0] == 'c',
        "add-protocol"@.len() == 12,
        "remove-protocol"@.len() == 15 && "remove-protocol"@[0] == 'r',
        "identity-online"@.len() == 15 && "identity-online"@[0] == 'i',
        "identity-offline"@.len() == 16,
        "--protocol"@.len() == 10,
        "--alias"@.len() == 7,
        "--config"@.len() == 8,
{
    reveal_strlit("init");
    reveal_strlit("call");
    reveal_strlit("stream");
    reveal_strlit("status");
    reveal_strlit("create-identity");
    reveal_strlit("add-protocol");
    reveal_strlit("remove-protocol");
    reveal_strlit("identity-online");
    reveal_strlit("identity-offline");
    reveal_strlit("--protocol");
    reveal_strlit("--alias");
    reveal_strlit("--config");
}

/// The command words ask for their commands, with the positional arguments
/// after the word: `identity-online <id>` puts `id` online and
/// `identity-offline <id>` takes it offline, `create-identity <alias>`
/// creates `alias`, `call <peer> <protocol> [bind_alias]` and
/// `stream <peer> <protocol>` name the peer and protocol, `init` and `status`
/// take no argument, and no command word at all means serving.
pub proof fn lemma_command_words(args: Seq<Seq<char>>)
    ensures
        args.len() <= 1 ==> serve_command(args) == Ok::<CommandSpec, CommandErrorSpec>(CommandSpec::Serve),
        args.len() >= 2 && args[1] == "init"@ ==> serve_command(args) == Ok::<CommandSpec, CommandErrorSpec>(
            CommandSpec::Init,
        ),
        args.len() >= 2 && args[1] == "status"@ ==> serve_command(args) == Ok::<CommandSpec, CommandErrorSpec>(
            CommandSpec::Status,
        ),
        args.len() >= 3 && args[1] == "identity-online"@ ==> serve_command(args) == Ok::<
            CommandSpec,
            CommandErrorSpec,
        >(CommandSpec::IdentityOnline { identity: args[2] }),
        args.len() >= 3 && args[1] == "identity-offline"@ ==> serve_command(args) == Ok::<
            CommandSpec,
            CommandErrorSpec,
        >(CommandSpec::IdentityOffline { identity: args[2] }),
        args.len() >= 3 && args[1] == "create-identity"@ ==> serve_command(args) == Ok::<
            CommandSpec,
            CommandErrorSpec,
        >(CommandSpec::CreateIdentity { alias: args[2] }),
        args.len() == 4 && args[1] == "call"@ ==> serve_command(args) == Ok::<CommandSpec, CommandErrorSpec>(
            CommandSpec::Call { peer: args[2], protocol: args[3], bind_alias: "default"@ },
        ),
        args.len() >= 5 && args[1] == "call"@ ==> serve_command(args) == Ok::<CommandSpec, CommandErrorSpec>(
            CommandSpec::Call { peer: args[2], protocol: args[3], bind_alias: args[4] },
        ),
        args.len() >= 4 && args[1] == "stream"@ ==> serve_command(args) == Ok::<CommandSpec, CommandErrorSpec>(
            CommandSpec::Stream { peer: args[2], protocol: args[3] },
        ),
{
    lemma_words_differ();
    if args.len() >= 2 {
        let w = args[1];
        if w == "stream"@ {
            assert(w[2] != "status"@[2]);
        }
        if w == "status"@ {
            assert(w[2] != "stream"@[2]);
        }
        if w == "identity-online"@ {
            assert(w[0] != "create-identity"@[0]);
            assert(w[0] != "remove-protocol"@[0]);
        }
        if w == "call"@ {
            assert(w[0] != "init"@[0]);
        }
    }
}

/// `add-protocol <identity> --protocol <p>` and `remove-protocol <identity>
/// --protocol <p>` name that identity and protocol, with the binding alias
/// `default` (and, when adding, the configuration `{}`).
pub proof fn lemma_binding_command_words(prog: Seq<char>, identity: Seq<char>, p: Seq<char>)
    requires
        identity != "--protocol"@,
        identity != "--alias"@,
        identity != "--config"@,
    ensures
        serve_command(seq![prog, "add-protocol"@, identity, "--protocol"@, p]) == Ok::<CommandSpec, CommandErrorSpec>(
            CommandSpec::AddProtocol { identity, protocol: p, alias: "default"@, config: "{}"@ },
        ),
        serve_command(seq![prog, "remove-protocol"@, identity, "--protocol"@, p]) == Ok::<
            CommandSpec,
            CommandErrorSpec,
        >(CommandSpec::RemoveProtocol { identity, protocol: p, alias: "default"@ }),
{
    lemma_words_differ();
    assert("remove-protocol"@[0] != "create-identity"@[0]);
    let a = seq![prog, "add-protocol"@, identity, "--protocol"@, p];
    let r = seq![prog, "remove-protocol"@, identity, "--protocol"@, p];
    assert(a[2] == identity && a[3] == "--protocol"@ && a[4] == p);
    assert(r[2] == identity && r[3] == "--protocol"@ && r[4] == p);
    let st1 = BindingArgs { identity: Some(identity), ..initial_binding_args() };
    let st2 = BindingArgs { protocol: Some(p), ..st1 };
    assert(scan_binding_args(a, 5, st2, true) == Ok::<BindingArgs, Seq<char>>(st2));
    assert(scan_binding_args(a, 3, st1, true) == Ok::<BindingArgs, Seq<char>>(st2));
    assert(scan_binding_args(a, 2, initial_binding_args(), true) == Ok::<BindingArgs, Seq<char>>(st2));
    assert(scan_binding_args(r, 5, st2, false) == Ok::<BindingArgs, Seq<char>>(st2));
    assert(scan_binding_args(r, 3, st1, false) == Ok::<BindingArgs, Seq<char>>(st2));
    assert(scan_binding_args(r, 2, initial_binding_args(), false) == Ok::<BindingArgs, Seq<char>>(st2));
}

/// `add-protocol <identity> --protocol <p> --alias <a> --config <c>` adds the
/// binding `a` of `p` to that identity with configuration `c`, and
/// `remove-protocol <identity> --protocol <p> --alias <a>` removes binding `a`.
pub proof fn lemma_binding_flags(prog: Seq<char>, identity: Seq<char>, p: Seq<char>, a: Seq<char>, c: Seq<char>)
    requires
        identity != "--protocol"@,
        identity != "--alias"@,
        identity != "--config"@,
    ensures
        serve_command(seq![prog, "add-protocol"@, identity, "--protocol"@, p, "--alias"@, a, "--config"@, c])
            == Ok::<CommandSpec, CommandErrorSpec>(
            CommandSpec::AddProtocol { identity, protocol: p, alias: a, config: c },
        ),
        serve_command(seq![prog, "remove-protocol"@, identity, "--protocol"@, p, "--alias"@, a]) == Ok::<
            CommandSpec,
            CommandErrorSpec,
        >(CommandSpec::RemoveProtocol { identity, protocol: p, alias: a }),
{
    lemma_words_differ();
    assert("remove-protocol"@[0] != "create-identity"@[0]);
    let x = seq![prog, "add-protocol"@, identity, "--protocol"@, p, "--alias"@, a, "--config"@, c];
    let r = seq![prog, "remove-protocol"@, identity, "--protocol"@, p, "--alias"@, a];
    assert(x[1] == "add-protocol"@ && x[2] == identity && x[3] == "--protocol"@ && x[4] == p);
    assert(x[5] == "--alias"@ && x[6] == a && x[7] == "--config"@ && x[8] == c);
    assert(r[1] == "remove-protocol"@ && r[2] == identity && r[3] == "--protocol"@ && r[4] == p);
    assert(r[5] == "--alias"@ && r[6] == a);
    let st1 = BindingArgs { identity: Some(identity), ..initial_binding_args() };
    let st2 = BindingArgs { protocol: Some(p), ..st1 };
    let st3 = BindingArgs { alias: a, ..st2 };
    let st4 = BindingArgs { config: c, ..st3 };
    assert(scan_binding_args(x, 9, st4, true) == Ok::<BindingArgs, Seq<char>>(st4));
    assert(scan_binding_args(x, 7, st3, true) == Ok::<BindingArgs, Seq<char>>(st4));
    assert(scan_binding_args(x, 5, st2, true) == Ok::<BindingArgs, Seq<char>>(st4));
    assert(scan_binding_args(x, 3, st1, true) == Ok::<BindingArgs, Seq<char>>(st4));
    assert(scan_binding_args(x, 2, initial_binding_args(), true) == Ok::<BindingArgs, Seq<char>>(st4));
    assert(scan_binding_args(r, 7, st3, false) == Ok::<BindingArgs, Seq<char>>(st3));
    assert(scan_binding_args(r, 5, st2, false) == Ok::<BindingArgs, Seq<char>>(st3));
    assert(scan_binding_args(r, 3, st1, false) == Ok::<BindingArgs, Seq<char>>(st3));
    assert(scan_binding_args(r, 2, initial_binding_args(), false) == Ok::<BindingArgs, Seq<char>>(st3));
}

} // verus!
