//! Core logic of a hot-start front end for a scripting runtime: a background
//! server keeps one pre-warmed interpreter ready, a short-lived client takes
//! it over a local socket and proxies its terminal until it exits.
//!
//! This crate holds the verified part: identifier and wire-protocol codecs,
//! the supervisor's bookkeeping of children and exit codes, the server's
//! hot-spare state machine, the terminal proxy's state machine, the pid-file
//! single-instance protocol, and the generator of the instructions script.
//! Process management itself (fork, PTY, sockets, signals) lives with the
//! callers; the few operating-system calls the verified loops need are
//! wrapped behind trusted declarations in `os`.

pub mod bootstrap;
pub mod child_id;
pub mod client;
pub mod instructions;
pub mod interpreter;
pub mod os;
pub mod pidfile;
pub mod protocol;
pub mod proxy;
pub mod ring;
pub mod server;
pub mod supervisor;
pub mod text;
