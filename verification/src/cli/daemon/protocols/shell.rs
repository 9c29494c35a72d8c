//! Shell protocol handler: runs one of a few allowed commands.
//!
//! Commands are not run on the host: each allowed command has a fixed
//! simulated output (`date` prints the current time), and any other command
//! is refused.

use vstd::prelude::*;
use crate::text::{concat, join, join_strings, owned, str_eq};

verus! {

/// Shell command structure.
#[derive(Debug)]
pub struct ShellCommand {
    pub command: String,
    pub args: Vec<String>,
}

/// Shell response structure.
#[derive(Debug)]
pub struct ShellResponse {
    pub exit_code: i32,
    pub stdout: String,
    pub stderr: String,
}

/// Shell error types.
#[derive(Debug)]
pub enum ShellError {
    ExecutionFailed { message: String },
    CommandNotAllowed { command: String },
    Timeout,
}

/// The message of a [`ShellError`].
pub open spec fn shell_error_message(e: ShellError) -> Seq<char> {
    match e {
        ShellError::ExecutionFailed { message } => "Command execution failed: "@ + message@,
        ShellError::CommandNotAllowed { command } => "Command not allowed: "@ + command@,
        ShellError::Timeout => "Timeout executing command"@,
    }
}

impl ShellError {
    /// The message of this error.
    pub fn to_string(&self) -> (s: String)
        ensures
            s@ == shell_error_message(*self),
    {
        match self {
            ShellError::ExecutionFailed { message } => concat("Command execution failed: ", message.as_str()),
            ShellError::CommandNotAllowed { command } => concat("Command not allowed: ", command.as_str()),
            ShellError::Timeout => owned("Timeout executing command"),
        }
    }
}

/// Shell protocol implementation.
pub struct ShellProtocol;

impl ShellProtocol {
    /// Protocol name.
    pub const NAME: &'static str = "Shell";
}

/// The commands that may be run.
pub open spec fn allowed_command(cmd: Seq<char>) -> bool {
    cmd == "echo"@ || cmd == "whoami"@ || cmd == "pwd"@ || cmd == "ls"@ || cmd == "date"@
}

/// The output of an allowed command given its arguments and the current
/// time, without a final line feed.
pub open spec fn command_output(cmd: Seq<char>, args: Seq<Seq<char>>, now: Seq<char>) -> Seq<char> {
    if cmd == "whoami"@ {
        "daemon_user"@
    } else if cmd == "pwd"@ {
        "/tmp/fastn-daemon"@
    } else if cmd == "date"@ {
        now
    } else if cmd == "echo"@ {
        join(args, " "@)
    } else {
        "file1.txt\nfile2.txt\ndir1/"@
    }
}

/// The views of the arguments of a command.
pub open spec fn args_view(args: Seq<String>) -> Seq<Seq<char>> {
    args.map_values(|a: String| a@)
}

/// Whether `cmd` is allowed.
fn is_allowed(cmd: &str) -> (b: bool)
    ensures
        b == allowed_command(cmd@),
{
    str_eq(cmd, "echo") || str_eq(cmd, "whoami") || str_eq(cmd, "pwd") || str_eq(cmd, "ls") || str_eq(cmd, "date")
}

/// The output of an allowed command, without a final line feed.
fn output_of(command: &ShellCommand, now: &str) -> (s: String)
    ensures
        s@ == command_output(command.command@, args_view(command.args@), now@),
{
    let cmd = command.command.as_str();
    if str_eq(cmd, "whoami") {
        owned("daemon_user")
    } else if str_eq(cmd, "pwd") {
        owned("/tmp/fastn-daemon")
    } else if str_eq(cmd, "date") {
        owned(now)
    } else if str_eq(cmd, "echo") {
        join_strings(&command.args, " ")
    } else {
        owned("file1.txt\nfile2.txt\ndir1/")
    }
}

/// What holds of every UTC time that `to_rfc3339` prints: at least 25
/// characters (`YYYY-MM-DDTHH:MM:SS`, optional fraction, offset), ending
/// with the offset `+00:00`.
pub open spec fn utc_rfc3339_text(t: Seq<char>) -> bool {
    t.len() >= 25 && t.skip(t.len() - 6) == "+00:00"@
}

/// `chrono::Utc::now().to_rfc3339()`: the current time as RFC 3339 text.
/// Which time it is depends on the clock; stated is only the shape that
/// every UTC time printed this way has.
#[verifier::external_body]
fn now_rfc3339() -> (s: String)
    ensures
        utc_rfc3339_text(s@),
{
    chrono::Utc::now().to_rfc3339()
}

/// Runs `command` as if the current time were `now`: a refused command is an
/// error naming it; an allowed one succeeds with exit code 0, its output
/// followed by a line feed, and no error output.
pub fn execute_command_at(command: ShellCommand, now: &str) -> (r: Result<ShellResponse, ShellError>)
    ensures
        match r {
            Ok(resp) => allowed_command(command.command@) && resp.exit_code == 0 && resp.stdout@ == command_output(
                command.command@,
                args_view(command.args@),
                now@,
            ) + "\n"@ && resp.stderr@ == ""@,
            Err(ShellError::CommandNotAllowed { command: c }) => !allowed_command(command.command@) && c@
                == command.command@,
            Err(_) => false,
        },
{
    if !is_allowed(command.command.as_str()) {
        return Err(ShellError::CommandNotAllowed { command: command.command });
    }
    let output = output_of(&command, now);
    Ok(ShellResponse { exit_code: 0, stdout: concat(output.as_str(), "\n"), stderr: owned("") })
}

/// Executes a shell command safely (request/response mode), reading the
/// clock for `date`, whose output is then the current UTC time in RFC 3339.
pub fn execute_command(command: ShellCommand) -> (r: Result<ShellResponse, ShellError>)
    ensures
        match r {
            Ok(resp) => allowed_command(command.command@) && resp.exit_code == 0 && resp.stderr@ == ""@ && if command.command@
                == "date"@ {
                exists|now: Seq<char>| utc_rfc3339_text(now) && resp.stdout@ == now + "\n"@
            } else {
                resp.stdout@ == command_output(command.command@, args_view(command.args@), ""@) + "\n"@
            },
            Err(ShellError::CommandNotAllowed { command: c }) => !allowed_command(command.command@) && c@
                == command.command@,
            Err(_) => false,
        },
{
    let now = if str_eq(command.command.as_str(), "date") {
        now_rfc3339()
    } else {
        owned("")
    };
    let ghost args = args_view(command.args@);
    let ghost cmd = command.command@;
    let r = execute_command_at(command, now.as_str());
    proof {
        if r is Ok {
            let out = r->Ok_0.stdout@;
            assert(out == command_output(cmd, args, now@) + "\n"@);
            if cmd == "date"@ {
                reveal_strlit("date");
                reveal_strlit("whoami");
                reveal_strlit("pwd");
                assert("date"@ != "whoami"@ && "date"@ != "pwd"@) by {
                    assert("date"@[0] != "whoami"@[0] && "date"@[0] != "pwd"@[0]);
                }
                assert(utc_rfc3339_text(now@) && out == now@ + "\n"@);
            }
        }
    }
    r
}

/// The output that a streaming shell session would send for `command` at
/// time `now`, or the error for a refused command.
pub fn stream_output_at(command: &ShellCommand, now: &str) -> (r: Result<String, ShellError>)
    ensures
        match r {
            Ok(out) => allowed_command(command.command@) && out@ == command_output(
                command.command@,
                args_view(command.args@),
                now@,
            ),
            Err(ShellError::CommandNotAllowed { command: c }) => !allowed_command(command.command@) && c@
                == command.command@,
            Err(_) => false,
        },
{
    if !is_allowed(command.command.as_str()) {
        return Err(ShellError::CommandNotAllowed { command: command.command.clone() });
    }
    Ok(output_of(command, now))
}

/// Handles a streaming shell session: the output to send for `command`,
/// reading the clock for `date` (the current UTC time in RFC 3339), or the
/// error for a refused command.
pub fn shell_stream_handler(command: ShellCommand) -> (r: Result<String, ShellError>)
    ensures
        match r {
            Ok(out) => allowed_command(command.command@) && if command.command@ == "date"@ {
                utc_rfc3339_text(out@)
            } else {
                out@ == command_output(command.command@, args_view(command.args@), ""@)
            },
            Err(ShellError::CommandNotAllowed { command: c }) => !allowed_command(command.command@) && c@
                == command.command@,
            Err(_) => false,
        },
{
    let now = if str_eq(command.command.as_str(), "date") {
        now_rfc3339()
    } else {
        owned("")
    };
    let r = stream_output_at(&command, now.as_str());
    proof {
        if r is Ok {
            assert(r->Ok_0@ == command_output(command.command@, args_view(command.args@), now@));
            if command.command@ == "date"@ {
                reveal_strlit("date");
                reveal_strlit("whoami");
                reveal_strlit("pwd");
                assert("date"@ != "whoami"@ && "date"@ != "pwd"@) by {
                    assert("date"@[0] != "whoami"@[0] && "date"@[0] != "pwd"@[0]);
                }
                assert(utc_rfc3339_text(now@));
            }
        }
    }
    r
}

} // verus!
