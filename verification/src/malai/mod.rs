//! HTTP over peer-to-peer streams: the request and response types that are
//! exchanged, the parsing of a request head received on a local socket, and
//! the argument helpers of the command-line tools.

pub mod http_bridge;
pub mod protocol;
pub mod utils;
