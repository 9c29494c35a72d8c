//! Verified core of a peer-to-peer communication stack built around a local
//! daemon: protocol headers, the connection handshake, the server's
//! per-connection state machine, the client's call state machine, identity
//! and protocol-binding bookkeeping under `FASTN_HOME`, command-line argument
//! handling, the daemon's built-in protocols, and the parsing used by the
//! HTTP-over-P2P tools.

pub mod cli;
pub mod client;
pub mod daemon_client;
pub mod handshake;
pub mod json;
pub mod keys;
pub mod malai;
pub mod net;
pub mod protocols;
pub mod server;
pub mod text;
