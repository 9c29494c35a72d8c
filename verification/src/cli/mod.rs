//! Command-line side of the daemon: where `FASTN_HOME` is, identity
//! management, status reporting, calls through the daemon, and the daemon's
//! built-in protocols.

pub mod client;
pub mod daemon;
pub mod identity;
pub mod status;

use vstd::prelude::*;
use crate::text::{join_path, owned, path_join};

verus! {

/// `directories::UserDirs::new` and `UserDirs::home_dir`: the user's home
/// directory, when the operating system reports one.  It depends on the
/// environment, so nothing is stated of it.
#[verifier::external_body]
pub(crate) fn user_home_dir() -> (h: Option<String>) {
    match directories::UserDirs::new() {
        Some(dirs) => Some(dirs.home_dir().to_string_lossy().into_owned()),
        None => None,
    }
}

/// Where `FASTN_HOME` is: the directory asked for, else `.fastn` in the
/// user's home directory, else the error message.
pub open spec fn fastn_home_spec(custom_home: Option<Seq<char>>, user_home: Option<Seq<char>>) -> Result<
    Seq<char>,
    Seq<char>,
> {
    match custom_home {
        Some(h) => Ok(h),
        None => match user_home {
            Some(u) => Ok(path_join(u, ".fastn"@)),
            None => Err("Could not determine user home directory"@),
        },
    }
}

/// `FASTN_HOME` from the directory asked for and the user's home directory.
pub fn fastn_home_from(custom_home: Option<String>, user_home: Option<String>) -> (r: Result<String, String>)
    ensures
        match r {
            Ok(h) => fastn_home_spec(custom_home.deep_view(), user_home.deep_view()) == Ok::<Seq<char>, Seq<char>>(
                h@,
            ),
            Err(m) => fastn_home_spec(custom_home.deep_view(), user_home.deep_view()) == Err::<
                Seq<char>,
                Seq<char>,
            >(m@),
        },
{
    match custom_home {
        Some(h) => Ok(h),
        None => match user_home {
            Some(u) => Ok(join_path(u.as_str(), ".fastn")),
            None => Err(owned("Could not determine user home directory")),
        },
    }
}

/// `FASTN_HOME`: the directory asked for (`--home` or the `FASTN_HOME`
/// variable), else `.fastn` in the user's home directory.
pub fn get_fastn_home(custom_home: Option<String>) -> (r: Result<String, String>)
    ensures
        custom_home matches Some(h) ==> r matches Ok(p) && p@ == h@,
        custom_home is None ==> match r {
            Ok(p) => exists|u: Seq<char>| p@ == path_join(u, ".fastn"@),
            Err(m) => m@ == "Could not determine user home directory"@,
        },
{
    match custom_home {
        Some(h) => Ok(h),
        None => {
            let user_home = user_home_dir();
            let r = fastn_home_from(None, user_home);
            proof {
                if r is Ok {
                    let u = user_home.deep_view()->0;
                    assert(r->Ok_0@ == path_join(u, ".fastn"@));
                }
            }
            r
        },
    }
}

} // verus!
