//! The rules of the transport: which socket a packet leaves by, when a batch of packets
//! leaves, how many sockets there are, and when receiving is given up.
pub mod inbound;
pub mod outbound;
pub mod sending_laws;
pub mod sizes;
pub mod types;
