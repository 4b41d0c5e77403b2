//! Session management for interactive pseudo-terminal streams.
//!
//! The crate holds the decisions of a PTY session manager: which sessions
//! are reachable, what is published on each session's channel, how a child
//! command line is put together and how failures are reported.  Operating
//! system work (opening the terminal, reading, writing, waiting, killing)
//! is left to the embedding program, which hands outcomes in as plain values.

pub mod command;
pub mod error;
pub mod event;
pub mod laws;
pub mod registry;
pub mod relay;
pub mod session;
pub mod spawn;
pub mod watcher;
