//! Core of a LAN-local duplex audio streaming system: discovery handshake
//! authenticated with HMAC-SHA256, a framed control protocol over TCP, compact
//! binary audio packets over UDP, clock synchronization, jitter buffering and
//! the session/RPC state machines that tie them together.
//!
//! Network and device I/O live outside this crate; every function here is
//! a total computation over plain values, specified and verified.

pub mod client;
pub mod clock;
pub mod discovery;
pub mod command;
pub mod config;
pub mod encoding;
pub mod events;
pub mod jitter;
pub mod pipeline;
pub mod protocol;
pub mod rpc;
pub mod server;
pub mod session;
pub mod wav;

use vstd::prelude::*;

verus! {

/// Largest control-frame body accepted on the TCP channel, in bytes.
pub const MAX_FRAME_LEN: u32 = 1048576;

/// An IPv4 address and a port: one end of a TCP or UDP flow.
#[derive(Debug, Clone, Copy, PartialEq, Eq, Hash, Structural)]
pub struct Endpoint {
    pub ip0: u8,
    pub ip1: u8,
    pub ip2: u8,
    pub ip3: u8,
    pub port: u16,
}

} // verus!
