//! Stream-level protocol identification shared by clients and servers.

pub mod endpoint_singleton;
pub mod protocol;
pub mod secret;
