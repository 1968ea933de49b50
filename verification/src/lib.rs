//! Core of a terminal multiplexer: the registry of tabs and windows, the
//! framing of the remote-procedure protocol, the client's picture of a
//! remote tab, and the rules that the threads and event loops around them
//! follow.
//!
//! The library does no input or output. Where a rule sits between two
//! reads, or between a request and its reply, the library takes what was
//! read and says what to do next. Its functions carry contracts that Verus
//! proves; the few that rest on a function of another crate say so.

pub mod cmdbuilder;
pub mod frontend;
pub mod mux;
pub mod pty;
pub mod server;
pub mod shell;
pub mod term;
pub mod varint;
