//! Recovery of lost packets from parity.
//!
//! The data packets of a stream go out in batches. When a batch is full, parity packets
//! follow it, from which the receiver computes what was lost. There are two schemes; a
//! stream has one of them.
pub mod batch_laws;
pub mod codec;
pub mod data;
pub mod inference;
pub mod positions;
pub mod pruning;
pub mod reed_solomon;
pub mod xor;
pub mod xor_laws;

use vstd::prelude::*;

use crate::manager::fields::{BatchID, FecScheme, SessionId, MAX_PAYLOAD_LENGTH};
use crate::manager::packets::{DataPacket, ParityPacket};
use crate::manager::ranges::FECInfo;
use crate::manager::types::Timestamp;
use data::{FECPacket, RecoverdPacket, Recovered};
use pruning::Pruned;
use reed_solomon::RS;
use xor::Xor;

verus! {

/// The batches of all sessions, by scheme.
pub struct Fec {
    pub xor: Xor,
    pub rs: RS,
}

/// Whether batches of the given sizes can be coded.
pub open spec fn codable(fec_info: FECInfo, scheme: FecScheme) -> bool {
    fec_info.batch_size > 0 && (scheme == FecScheme::ReedSolomon ==> fec_info.recovery_count > 0)
}

impl Fec {
    /// Whether every batch is one.
    pub open spec fn wf(self) -> bool {
        self.xor.wf() && self.rs.wf()
    }

    /// Whether no batch is under way.
    pub open spec fn is_idle(self) -> bool {
        &&& forall|k: u128| #[trigger] self.xor.inbound_at(k) is None
        &&& forall|k: u128| #[trigger] self.xor.outbound_at(k) is None
        &&& forall|k: u128| #[trigger] self.rs.inbound_at(k) is None
        &&& forall|k: u128| #[trigger] self.rs.outbound_at(k) is None
    }

    /// What sending a data packet does and gives.
    pub open spec fn sends(
        self,
        next: Fec,
        scheme: FecScheme,
        batch_id: BatchID,
        session_id: SessionId,
        fec_info: FECInfo,
        block: Seq<u8>,
        now: Timestamp,
        r: Option<Vec<ParityPacket>>,
    ) -> bool {
        match scheme {
            FecScheme::Xor => next.rs == self.rs && self.xor.sends(
                next.xor,
                batch_id,
                session_id,
                fec_info,
                block,
                now,
                r,
            ),
            FecScheme::ReedSolomon => next.xor == self.xor && self.rs.sends(
                next.rs,
                batch_id,
                session_id,
                fec_info,
                block,
                now,
                r,
            ),
        }
    }

    /// What receiving a packet does and gives.
    pub open spec fn receives(
        self,
        next: Fec,
        scheme: FecScheme,
        batch_id: BatchID,
        session_id: SessionId,
        fec_info: FECInfo,
        is_parity: bool,
        block: Seq<u8>,
        now: Timestamp,
        recoverable: bool,
    ) -> bool {
        match scheme {
            FecScheme::Xor => next.rs == self.rs && self.xor.receives(
                next.xor,
                batch_id,
                session_id,
                fec_info,
                is_parity,
                block,
                now,
                recoverable,
            ),
            FecScheme::ReedSolomon => next.xor == self.xor && self.rs.receives(
                next.rs,
                batch_id,
                session_id,
                fec_info,
                is_parity,
                block,
                now,
                recoverable,
            ),
        }
    }

    /// What recovering a batch does and gives.
    pub open spec fn recovers(
        self,
        next: Fec,
        scheme: FecScheme,
        batch_id: BatchID,
        session_id: SessionId,
        r: Option<Vec<RecoverdPacket>>,
    ) -> bool {
        match scheme {
            FecScheme::Xor => next.rs == self.rs && self.xor.recovers(
                next.xor,
                batch_id,
                session_id,
                r,
            ),
            FecScheme::ReedSolomon => next.xor == self.xor && self.rs.recovers(
                next.rs,
                batch_id,
                session_id,
                r,
            ),
        }
    }

    /// What giving up on batches that are too old does and gives.
    pub open spec fn prunes(self, next: Fec, ttl_ms: u64, now: Timestamp, out: Seq<Pruned>) -> bool {
        exists|n: int|
            0 <= n <= out.len() && #[trigger] self.xor.prunes(
                next.xor,
                ttl_ms,
                now,
                out.take(n),
            ) && self.rs.prunes(next.rs, ttl_ms, now, out.skip(n))
    }

    /// No batches.
    pub fn new() -> (f: Self)
        ensures
            f.wf(),
            f.is_idle(),
    {
        Fec { xor: Xor::new(), rs: RS::new() }
    }

    /// Takes in a data packet that is sent. Gives the parity packets of its batch if the
    /// packet was the last one.
    pub fn sent(&mut self, packet: &DataPacket, scheme: FecScheme, now: Timestamp) -> (r: Option<
        Vec<ParityPacket>,
    >)
        requires
            old(self).wf(),
            packet.payload@.len() <= MAX_PAYLOAD_LENGTH,
            codable(packet.fec_info, scheme),
        ensures
            final(self).wf(),
            old(self).sends(
                *final(self),
                scheme,
                packet.batch_id,
                packet.session_id,
                packet.fec_info,
                data::fec_image(packet.byte_range_start.0, packet.payload@),
                now,
                r,
            ),
    {
        let fec_packet: FECPacket = FECPacket::from_data(packet);
        match scheme {
            FecScheme::Xor => self.xor.sent(&fec_packet, now),
            FecScheme::ReedSolomon => self.rs.sent(&fec_packet, now),
        }
    }

    /// Takes in a data packet that came. Says whether its batch can be recovered.
    pub fn received(&mut self, packet: &DataPacket, scheme: FecScheme, now: Timestamp) -> (r: bool)
        requires
            old(self).wf(),
            packet.payload@.len() <= MAX_PAYLOAD_LENGTH,
            codable(packet.fec_info, scheme),
        ensures
            final(self).wf(),
            old(self).receives(
                *final(self),
                scheme,
                packet.batch_id,
                packet.session_id,
                packet.fec_info,
                false,
                data::fec_image(packet.byte_range_start.0, packet.payload@),
                now,
                r,
            ),
    {
        let fec_packet: FECPacket = FECPacket::from_data(packet);
        match scheme {
            FecScheme::Xor => self.xor.received(fec_packet, now),
            FecScheme::ReedSolomon => self.rs.received(fec_packet, now),
        }
    }

    /// Takes in a parity packet that came. Says whether its batch can be recovered.
    pub fn received_parity(&mut self, packet: &ParityPacket, scheme: FecScheme, now: Timestamp) -> (r:
        bool)
        requires
            old(self).wf(),
            codable(packet.fec_info, scheme),
        ensures
            final(self).wf(),
            old(self).receives(
                *final(self),
                scheme,
                packet.batch_id,
                packet.session_id,
                packet.fec_info,
                true,
                data::parity_image(packet.payload@),
                now,
                r,
            ),
    {
        let fec_packet: FECPacket = FECPacket::from_parity(packet);
        match scheme {
            FecScheme::Xor => self.xor.received(fec_packet, now),
            FecScheme::ReedSolomon => self.rs.received(fec_packet, now),
        }
    }

    /// Takes a batch out and computes the packets that it misses.
    pub fn recover(&mut self, batch_id: BatchID, session_id: SessionId, scheme: FecScheme) -> (r:
        Option<Recovered>)
        requires
            old(self).wf(),
        ensures
            final(self).wf(),
            match r {
                Some(recovered) => recovered.session_id == session_id && recovered.batch_id
                    == batch_id && old(self).recovers(
                    *final(self),
                    scheme,
                    batch_id,
                    session_id,
                    Some(recovered.packets),
                ),
                None => old(self).recovers(*final(self), scheme, batch_id, session_id, None),
            },
    {
        let packets: Option<Vec<RecoverdPacket>> = match scheme {
            FecScheme::Xor => self.xor.recover(batch_id, session_id),
            FecScheme::ReedSolomon => self.rs.recover(batch_id, session_id),
        };
        match packets {
            Some(packets) => Some(Recovered { session_id, batch_id, packets }),
            None => None,
        }
    }

    /// Takes out every batch that is older than `ttl_ms`, and says which packets each of
    /// them misses.
    pub fn prune(&mut self, ttl_ms: u64, now: Timestamp) -> (out: Vec<Pruned>)
        requires
            old(self).wf(),
        ensures
            final(self).wf(),
            old(self).prunes(*final(self), ttl_ms, now, out@),
    {
        let mut out: Vec<Pruned> = self.xor.prune(ttl_ms, now);
        let ghost first = out@;
        let mut second: Vec<Pruned> = self.rs.prune(ttl_ms, now);
        let ghost second_view = second@;
        out.append(&mut second);
        assert(out@.take(first.len() as int) =~= first);
        assert(out@.skip(first.len() as int) =~= second_view);
        out
    }
}

} // verus!
