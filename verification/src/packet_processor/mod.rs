//! Between packets and bytes: wire images, protection, fingerprints and forward
//! error correction.
pub mod delivery;
pub mod encryptable;
pub mod encryption;
pub mod fec;
pub mod fingerprint;
pub mod inbound;
pub mod outbound;
pub mod readers;
pub mod reading;
pub mod sending_laws;
pub mod serialize;
pub mod types;
