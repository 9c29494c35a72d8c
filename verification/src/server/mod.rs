//! Server side: handler registry and per-connection state machine, identity
//! configuration, and the multi-identity serving plan.

pub mod builder;
pub mod commands;
pub mod daemon;
pub mod serve_all;
