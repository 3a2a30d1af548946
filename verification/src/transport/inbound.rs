//! Packets on their way in.
use vstd::prelude::*;

use crate::error::TransportError;
use crate::manager::identity::Address;
use crate::packet_processor::types::ReceivedPacket;

verus! {

/// How often in a row receiving may fail.
pub const MAX_ALLOWED_FAILS: u32 = 10;

/// How often in a row receiving has failed.
#[derive(Debug, Clone, Copy, PartialEq, Eq, Structural)]
pub struct FailCount(pub u32);

impl FailCount {
    /// Receiving has not been given up.
    pub open spec fn wf(self) -> bool {
        self.0 < MAX_ALLOWED_FAILS
    }

    /// Nothing has failed yet.
    pub fn new() -> (c: Self)
        ensures
            c.0 == 0,
            c.wf(),
    {
        FailCount(0)
    }

    /// The first `read` bytes of `buffer` are a packet.
    pub fn received(&mut self, src_addr: Address, mut buffer: Vec<u8>, read: usize) -> (packet:
        ReceivedPacket)
        requires
            read <= buffer@.len(),
        ensures
            final(self).0 == 0,
            packet.src_addr == src_addr,
            packet.data@ == buffer@.take(read as int),
    {
        self.0 = 0;
        buffer.truncate(read);
        ReceivedPacket { src_addr, data: buffer }
    }

    /// Receiving failed. It is given up if it has failed too often in a row.
    pub fn failed(&mut self) -> (r: Result<(), TransportError>)
        requires
            old(self).wf(),
        ensures
            final(self).0 == old(self).0 + 1,
            r is Err <==> final(self).0 == MAX_ALLOWED_FAILS,
            r is Err ==> r->Err_0 == TransportError::RecvFailedTooManyTimes,
            r is Ok ==> final(self).wf(),
    {
        self.0 = self.0 + 1;
        if self.0 >= MAX_ALLOWED_FAILS {
            Err(TransportError::RecvFailedTooManyTimes)
        } else {
            Ok(())
        }
    }
}

} // verus!
