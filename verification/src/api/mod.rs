//! What an application sees of the protocol.
pub mod buffer_laws;
pub mod dc_proto;
pub mod dc_receiver;
pub mod dc_sender;
pub mod handles;
pub mod opening;
pub mod types;
