//! The daemon's built-in protocols.

pub mod echo;
pub mod shell;
