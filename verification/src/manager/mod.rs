//! Session bookkeeping: what the protocol knows of its peers and streams.
pub mod arrival_laws;
pub mod batches;
pub mod connection;
pub mod control_laws;
pub mod dispatch_laws;
pub mod endpoints;
pub mod fec_prune;
pub mod fields;
pub mod handshakes;
pub mod header;
pub mod held;
pub mod hello;
pub mod identity;
pub mod images;
pub mod inbound;
pub mod key_exchange;
pub mod label_laws;
pub mod laws;
pub mod packets;
pub mod playback_laws;
pub mod ranges;
pub mod received;
pub mod received_data;
pub mod request_laws;
pub mod requests;
pub mod resend_laws;
pub mod send;
pub mod send_loop;
pub mod session_fec;
pub mod session_laws;
pub mod state;
pub mod stream_state;
pub mod streaming;
pub mod tables;
pub mod transfer_laws;
pub mod types;
pub mod views;
pub mod windows;
