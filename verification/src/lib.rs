//! UBASS: the verified core of a UDP byte-stream protocol.
//!
//! The crate holds the protocol's logic as pure state transitions: wire
//! formats, forward error correction, packet protection, the receive and send
//! buffers, session bookkeeping and the measurement collector. Sockets, timers
//! and tasks live in the program around it, which hands in the current time and
//! the bytes it read and carries out the actions it gets back.
pub mod api;
pub mod error;
pub mod manager;
pub mod packet_processor;
pub mod transport;
pub mod utils;
pub mod wire;

use vstd::prelude::*;

verus! {

/// The UDP port a peer listens on unless it is told otherwise.
pub const DEFAULT_PORT: u16 = 8455;

} // verus!
