//! The two ends of the multiplexer protocol have these in common: the
//! messages, their frames, and the client's shadow of a remote tab.

pub mod client;
pub mod codec;
pub mod pdu;
pub mod tab;
