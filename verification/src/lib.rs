//! A text chat relay, as a set of verified decision procedures.
//!
//! Every connection has a reader, which turns what it reads into events, and
//! a writer, which drains the connection's outbound channel. One broker owns
//! the registry of connected peers and relays each line to every other peer.
//! The tasks, sockets and the waiting on channels live outside this crate.

pub mod broker;
pub mod channel;
pub mod event;
pub mod history;
pub mod peer;
pub mod reader;
pub mod session;
pub mod wire;
pub mod writer;
