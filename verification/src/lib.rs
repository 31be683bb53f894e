//! A sans-I/O client for the Scribe log-shipping protocol.
//!
//! The library builds the framed request bytes of each call and interprets the
//! framed reply bytes; moving the bytes over a socket is left to the caller.

pub mod call;
pub mod client;
pub mod counters;
pub mod frame;
pub mod inbound;
pub mod model;
pub mod reply;
pub mod wire;
