//! The side of a measurement that serves streams: its settings, and which requests it
//! serves.
use vstd::prelude::*;

use crate::api::dc_proto;
use crate::error::ApiErrors;
use crate::wire;

verus! {

/// How often what was measured is passed on, in milliseconds.
pub const DRAIN_INTERVAL_MS: u64 = 250;

/// How often a stream is asked whether it is done, in milliseconds.
pub const DONE_POLL_MS: u64 = 50;

/// The settings of a sender. Times are in milliseconds.
#[derive(Debug, Clone, Copy, PartialEq, Eq, Structural)]
pub struct SenderOptions {
    /// The most streams at once, over all connections.
    pub max_in_flight: usize,
    /// How long one stream may take.
    pub per_stream_timeout: u64,
    /// The longest stream that is served.
    pub max_buffer_len: usize,
    /// How long the end waits for what is still going on.
    pub shutdown_grace: u64,
}

impl Default for SenderOptions {
    fn default() -> (o: Self)
        ensures
            o.max_in_flight == 64,
            o.per_stream_timeout == 5 * 60 * 1000,
            o.max_buffer_len == 1024 * 1024 * 1024,
            o.shutdown_grace == 10 * 1000,
    {
        SenderOptions {
            max_in_flight: 64,
            per_stream_timeout: 5 * 60 * 1000,
            max_buffer_len: 1024 * 1024 * 1024,
            shutdown_grace: 10 * 1000,
        }
    }
}

impl SenderOptions {
    /// Whether the settings can be used. With no streams at once nothing would ever be
    /// served.
    pub fn check(&self) -> (r: Result<(), ApiErrors>)
        ensures
            r is Err <==> self.max_in_flight == 0,
            r is Err ==> r->Err_0 == ApiErrors::InvalidPort,
    {
        if self.max_in_flight == 0 {
            Err(ApiErrors::InvalidPort)
        } else {
            Ok(())
        }
    }

    /// Whether a request for the stream with the given name is served: the name is one of
    /// this protocol, and the stream is neither empty nor too long.
    pub open spec fn serves(self, track_id: Seq<u8>) -> bool {
        &&& track_id.len() == dc_proto::TRACK_ID_LEN
        &&& 0 < wire::rd32(track_id, 8) <= self.max_buffer_len
    }
}

/// The stream that a request asks for. Nothing if the request is turned down.
pub fn serve_track(track_id: &[u8], options: &SenderOptions) -> (r: Option<Vec<u8>>)
    ensures
        r is Some <==> options.serves(track_id@),
        r matches Some(stream) ==> stream@ == dc_proto::prg_stream(
            wire::rd64(track_id@, 0),
            wire::rd32(track_id@, 8) as nat,
        ),
{
    match dc_proto::decode_track_id(track_id) {
        Some((seed, length)) => {
            if length == 0 || (length as usize) > options.max_buffer_len {
                return None;
            }
            Some(dc_proto::generate_prg_buffer(seed, length as usize))
        },
        None => None,
    }
}

} // verus!
