//! Client of the local daemon: its errors and where it finds `FASTN_HOME`.

use vstd::prelude::*;
use crate::cli::user_home_dir;
use crate::text::{concat, join_path, owned, path_join};

verus! {

/// Client operation errors, each with the text of what went wrong.
#[derive(Debug)]
pub enum ClientError {
    DaemonConnection(String),
    Protocol(String),
    Serialization { source: String },
    Io { source: String },
    Configuration(String),
}

/// The message of a [`ClientError`].
pub open spec fn client_error_message(e: ClientError) -> Seq<char> {
    match e {
        ClientError::DaemonConnection(m) => "Daemon connection failed: "@ + m@,
        ClientError::Protocol(m) => "Protocol error: "@ + m@,
        ClientError::Serialization { source } => "Serialization error: "@ + source@,
        ClientError::Io { source } => "IO error: "@ + source@,
        ClientError::Configuration(m) => "Configuration error: "@ + m@,
    }
}

impl ClientError {
    /// The message of this error.
    pub fn to_string(&self) -> (s: String)
        ensures
            s@ == client_error_message(*self),
    {
        match self {
            ClientError::DaemonConnection(m) => concat("Daemon connection failed: ", m.as_str()),
            ClientError::Protocol(m) => concat("Protocol error: ", m.as_str()),
            ClientError::Serialization { source } => concat("Serialization error: ", source.as_str()),
            ClientError::Io { source } => concat("IO error: ", source.as_str()),
            ClientError::Configuration(m) => concat("Configuration error: ", m.as_str()),
        }
    }
}

/// Connection errors for streaming operations, each with the text of what
/// went wrong.
#[derive(Debug)]
pub enum ConnectionError {
    DaemonConnection(String),
    StreamSetup(String),
    Serialization { source: String },
    Io { source: String },
}

/// The message of a [`ConnectionError`].
pub open spec fn connection_error_message(e: ConnectionError) -> Seq<char> {
    match e {
        ConnectionError::DaemonConnection(m) => "Failed to connect to daemon: "@ + m@,
        ConnectionError::StreamSetup(m) => "Failed to establish stream: "@ + m@,
        ConnectionError::Serialization { source } => "Serialization error: "@ + source@,
        ConnectionError::Io { source } => "IO error: "@ + source@,
    }
}

impl ConnectionError {
    /// The message of this error.
    pub fn to_string(&self) -> (s: String)
        ensures
            s@ == connection_error_message(*self),
    {
        match self {
            ConnectionError::DaemonConnection(m) => concat("Failed to connect to daemon: ", m.as_str()),
            ConnectionError::StreamSetup(m) => concat("Failed to establish stream: ", m.as_str()),
            ConnectionError::Serialization { source } => concat("Serialization error: ", source.as_str()),
            ConnectionError::Io { source } => concat("IO error: ", source.as_str()),
        }
    }
}

/// Where the client finds `FASTN_HOME`: the `FASTN_HOME` variable when it is
/// set, else `.fastn` in the user's home directory, else a configuration
/// error.
pub open spec fn client_home_spec(env_home: Option<Seq<char>>, user_home: Option<Seq<char>>) -> Option<
    Seq<char>,
> {
    match env_home {
        Some(h) => Some(h),
        None => match user_home {
            Some(u) => Some(path_join(u, ".fastn"@)),
            None => None,
        },
    }
}

/// `FASTN_HOME` from the `FASTN_HOME` variable and the user's home directory.
pub fn fastn_home_of(env_home: Option<String>, user_home: Option<String>) -> (r: Result<String, ClientError>)
    ensures
        match r {
            Ok(h) => client_home_spec(env_home.deep_view(), user_home.deep_view()) == Some(h@),
            Err(ClientError::Configuration(m)) => client_home_spec(env_home.deep_view(), user_home.deep_view())
                is None && m@ == "Could not determine user home directory"@,
            Err(_) => false,
        },
{
    match env_home {
        Some(h) => Ok(h),
        None => match user_home {
            Some(u) => Ok(join_path(u.as_str(), ".fastn")),
            None => Err(ClientError::Configuration(owned("Could not determine user home directory"))),
        },
    }
}

/// `FASTN_HOME` for the client, given the value of the `FASTN_HOME`
/// variable; the user's home directory is asked for only when it is unset.
pub fn get_fastn_home(env_home: Option<String>) -> (r: Result<String, ClientError>)
    ensures
        env_home matches Some(h) ==> r matches Ok(p) && p@ == h@,
        env_home is None ==> match r {
            Ok(p) => exists|u: Seq<char>| p@ == path_join(u, ".fastn"@),
            Err(ClientError::Configuration(m)) => m@ == "Could not determine user home directory"@,
            Err(_) => false,
        },
{
    match env_home {
        Some(h) => Ok(h),
        None => {
            let user_home = user_home_dir();
            let r = fastn_home_of(None, user_home);
            proof {
                if r is Ok {
                    let u = user_home.deep_view()->0;
                    assert(r->Ok_0@ == path_join(u, ".fastn"@));
                }
            }
            r
        },
    }
}

} // verus!
