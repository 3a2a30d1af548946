//! Recovery of several lost packets per batch by Reed-Solomon coding: any packets of a
//! batch, data or parity, make up for its data packets if there are as many.
use vstd::prelude::*;

use reed_solomon_simd::{ReedSolomonDecoder, ReedSolomonEncoder};

use crate::manager::fields::{
    BatchID, BytePosition, Options, PacketType, SessionId, Version, CURRENT_VERSION,
};
use crate::manager::packets::ParityPacket;
use crate::manager::ranges::FECInfo;
use crate::manager::types::Timestamp;
use crate::packet_processor::fec::codec;
use crate::packet_processor::fec::data;
use crate::packet_processor::fec::data::{FECPacket, RecoverdPacket, FEC_DATA_SIZE};
use crate::packet_processor::fec::positions;
use crate::packet_processor::fec::positions::{Positions, PositionsView};
use crate::packet_processor::fec::pruning;
use crate::packet_processor::fec::pruning::{Batch, Pruned};
use crate::utils::table::Table;
use crate::utils::Flags;
use crate::wire;

verus! {

/// A batch on its way in: its data and parity packets that came.
#[verifier::ext_equal]
pub struct InboundView {
    pub originals: Map<int, Seq<u8>>,
    pub recoveries: Map<int, Seq<u8>>,
    pub batch_size: u8,
    pub recovery_count: u8,
    pub positions: PositionsView,
    pub created_at: Timestamp,
}

impl InboundView {
    /// A batch of which nothing came.
    pub open spec fn empty(batch_size: u8, recovery_count: u8, now: Timestamp) -> InboundView {
        InboundView {
            originals: Map::empty(),
            recoveries: Map::empty(),
            batch_size,
            recovery_count,
            positions: PositionsView::empty(),
            created_at: now,
        }
    }

    /// The batch with one more data packet. One that came before changes nothing, nor
    /// does one at a place that the batch does not have, other than that it is noted.
    pub open spec fn added(self, pos: u8, block: Seq<u8>) -> InboundView {
        InboundView {
            originals: if pos < self.batch_size && !self.originals.dom().contains(pos as int) {
                self.originals.insert(pos as int, block)
            } else {
                self.originals
            },
            positions: self.positions.noted(pos, BytePosition(wire::rd32(block, 0))),
            ..self
        }
    }

    /// The batch with one more parity packet.
    pub open spec fn with_parity(self, pos: u8, block: Seq<u8>) -> InboundView {
        InboundView {
            recoveries: if pos < self.recovery_count && !self.recoveries.dom().contains(
                pos as int,
            ) {
                self.recoveries.insert(pos as int, block)
            } else {
                self.recoveries
            },
            ..self
        }
    }

    /// Whether there are as many packets as the batch has data packets.
    pub open spec fn enough(self) -> bool {
        self.originals.dom().len() + self.recoveries.dom().len() >= self.batch_size
    }

    /// Whether data packets are missing and can be recovered.
    pub open spec fn recoverable(self) -> bool {
        self.originals.dom().len() < self.batch_size && self.enough()
    }

    /// The data packets that are missing, each with its place.
    pub open spec fn restored(self) -> Seq<(int, Seq<u8>)> {
        codec::rs_restored(
            self.batch_size as int,
            self.recovery_count as int,
            self.originals,
            self.recoveries,
        )
    }

    /// Whether the packets that came are those of a batch of the data packets `all`.
    pub open spec fn is_part_of(self, all: Seq<Seq<u8>>) -> bool {
        codec::shards_of(
            all,
            (self.batch_size as int, self.recovery_count as int, FEC_DATA_SIZE as int),
            self.originals,
            self.recoveries,
        )
    }
}

/// A batch on its way in.
struct InboundBatchData {
    decoder: ReedSolomonDecoder,
    batch_size: u8,
    recovery_count: u8,
    received_count: u8,
    recovery_received: u8,
    positions: Positions,
    created_at: Timestamp,
}

impl View for InboundBatchData {
    type V = InboundView;

    closed spec fn view(&self) -> InboundView {
        InboundView {
            originals: codec::decoder_originals(self.decoder),
            recoveries: codec::decoder_recoveries(self.decoder),
            batch_size: self.batch_size,
            recovery_count: self.recovery_count,
            positions: self.positions@,
            created_at: self.created_at,
        }
    }
}

/// Whether the keys of `m` are places below `n`, `count` of them.
spec fn counted(m: Map<int, Seq<u8>>, n: int, count: int) -> bool {
    &&& m.dom().finite()
    &&& m.dom().len() == count
    &&& forall|i: int| #[trigger] m.dom().contains(i) ==> 0 <= i < n
}

proof fn lemma_counted_room(m: Map<int, Seq<u8>>, n: int, count: int, i: int)
    requires
        counted(m, n, count),
        0 <= i < n,
        !m.dom().contains(i),
    ensures
        count < n,
{
    let range = vstd::set_lib::set_int_range(0, n);
    vstd::set_lib::lemma_int_range(0, n);
    assert(m.dom().insert(i).subset_of(range));
    vstd::set_lib::lemma_len_subset(m.dom().insert(i), range);
}

impl InboundBatchData {
    closed spec fn wf(self) -> bool {
        &&& codec::decoder_limits(self.decoder) == (
            self.batch_size as int,
            self.recovery_count as int,
            FEC_DATA_SIZE as int,
        )
        &&& counted(
            codec::decoder_originals(self.decoder),
            self.batch_size as int,
            self.received_count as int,
        )
        &&& counted(
            codec::decoder_recoveries(self.decoder),
            self.recovery_count as int,
            self.recovery_received as int,
        )
        &&& self.positions.wf()
    }

    /// A batch of which nothing came.
    fn new(batch_size: u8, recovery_count: u8, now: Timestamp) -> (b: Self)
        requires
            batch_size > 0,
            recovery_count > 0,
        ensures
            b.wf(),
            b@ == InboundView::empty(batch_size, recovery_count, now),
    {
        InboundBatchData {
            decoder: codec::new_decoder(
                batch_size as usize,
                recovery_count as usize,
                FEC_DATA_SIZE,
            ),
            batch_size,
            recovery_count,
            received_count: 0,
            recovery_received: 0,
            positions: Positions::new(),
            created_at: now,
        }
    }

    /// Adds a data packet. Says whether it came before.
    fn add(&mut self, packet: &FECPacket) -> (again: bool)
        requires
            old(self).wf(),
            packet.data.wf(),
        ensures
            final(self).wf(),
            final(self)@ == old(self)@.added(packet.fec_info.batch_pos, packet.data@),
            again == (packet.fec_info.batch_pos < old(self)@.batch_size && old(
                self,
            )@.originals.dom().contains(packet.fec_info.batch_pos as int)),
    {
        let pos: u8 = packet.fec_info.batch_pos;
        self.positions.note(pos, packet.data.start());
        if codec::decoder_add_original(&mut self.decoder, pos as usize, packet.data.as_bytes()) {
            proof {
                lemma_counted_room(
                    old(self)@.originals,
                    self.batch_size as int,
                    self.received_count as int,
                    pos as int,
                );
            }
            self.received_count += 1;
            false
        } else {
            pos < self.batch_size
        }
    }

    /// Adds a parity packet.
    fn add_parity(&mut self, packet: &FECPacket)
        requires
            old(self).wf(),
            packet.data.wf(),
        ensures
            final(self).wf(),
            final(self)@ == old(self)@.with_parity(packet.fec_info.batch_pos, packet.data@),
    {
        let pos: u8 = packet.fec_info.batch_pos;
        if codec::decoder_add_recovery(&mut self.decoder, pos as usize, packet.data.as_bytes()) {
            proof {
                lemma_counted_room(
                    old(self)@.recoveries,
                    self.recovery_count as int,
                    self.recovery_received as int,
                    pos as int,
                );
            }
            self.recovery_received += 1;
        }
    }

    /// Whether data packets are missing and can be recovered.
    fn recoverable(&self) -> (r: bool)
        requires
            self.wf(),
        ensures
            r == self@.recoverable(),
    {
        self.received_count < self.batch_size && self.received_count as u16
            + self.recovery_received as u16 >= self.batch_size as u16
    }
}

impl Batch for InboundBatchData {
    closed spec fn valid(&self) -> bool {
        self.wf()
    }

    closed spec fn born(&self) -> Timestamp {
        self@.created_at
    }

    closed spec fn misses(&self) -> Seq<BytePosition> {
        self@.positions.missing(self@.batch_size)
    }

    fn created(&self) -> (t: Timestamp) {
        self.created_at
    }

    fn missing_positions(&self) -> (missing: Vec<BytePosition>) {
        self.positions.missing(self.batch_size)
    }
}

/// A batch on its way out: its data packets so far.
#[verifier::ext_equal]
pub struct OutboundView {
    pub shards: Seq<Seq<u8>>,
    pub batch_size: u8,
    pub recovery_count: u8,
}

impl OutboundView {
    /// A batch of which nothing was sent.
    pub open spec fn empty(batch_size: u8, recovery_count: u8) -> OutboundView {
        OutboundView { shards: seq![], batch_size, recovery_count }
    }

    /// The batch with one more packet.
    pub open spec fn added(self, block: Seq<u8>) -> OutboundView {
        OutboundView { shards: self.shards.push(block), ..self }
    }

    /// Whether every packet was sent.
    pub open spec fn full(self) -> bool {
        self.shards.len() >= self.batch_size
    }

    /// The parity of the batch.
    pub open spec fn recovery(self) -> Seq<Seq<u8>> {
        codec::rs_recovery(self.batch_size as int, self.recovery_count as int, self.shards)
    }
}

/// A batch on its way out.
struct OutboundBatchData {
    encoder: ReedSolomonEncoder,
    batch_size: u8,
    recovery_count: u8,
    received_count: u8,
}

impl View for OutboundBatchData {
    type V = OutboundView;

    closed spec fn view(&self) -> OutboundView {
        OutboundView {
            shards: codec::encoder_shards(self.encoder),
            batch_size: self.batch_size,
            recovery_count: self.recovery_count,
        }
    }
}

impl OutboundBatchData {
    closed spec fn wf(self) -> bool {
        &&& codec::encoder_limits(self.encoder) == (
            self.batch_size as int,
            self.recovery_count as int,
            FEC_DATA_SIZE as int,
        )
        &&& codec::encoder_shards(self.encoder).len() == self.received_count
        &&& self.received_count < self.batch_size
    }

    /// A batch of which nothing was sent.
    fn new(batch_size: u8, recovery_count: u8) -> (b: Self)
        requires
            batch_size > 0,
            recovery_count > 0,
        ensures
            b.wf(),
            b@ == OutboundView::empty(batch_size, recovery_count),
    {
        OutboundBatchData {
            encoder: codec::new_encoder(
                batch_size as usize,
                recovery_count as usize,
                FEC_DATA_SIZE,
            ),
            batch_size,
            recovery_count,
            received_count: 0,
        }
    }
}

/// The batches of all sessions that are recovered by Reed-Solomon coding.
pub struct RS {
    inbound: Table<u128, InboundBatchData>,
    outbound: Table<u128, OutboundBatchData>,
}

/// The parity packet with index `i` of a full batch.
pub open spec fn is_parity_of(
    parity: ParityPacket,
    batch_id: BatchID,
    session_id: SessionId,
    fec_info: FECInfo,
    i: int,
    payload: Seq<u8>,
    now: Timestamp,
) -> bool {
    &&& parity.version == Version(CURRENT_VERSION)
    &&& parity.packet_type == PacketType::Parity
    &&& parity.opts == Options(0)
    &&& parity.batch_id == batch_id
    &&& parity.session_id == session_id
    &&& parity.fec_info == (FECInfo {
        batch_size: fec_info.batch_size,
        batch_pos: i as u8,
        recovery_count: fec_info.recovery_count,
    })
    &&& parity.payload@ == payload
    &&& parity.timestamp == now
}

impl RS {
    /// The batch on its way in that `key` names.
    pub closed spec fn inbound_at(self, key: u128) -> Option<InboundView> {
        if self.inbound@.dom().contains(key) {
            Some(self.inbound@[key]@)
        } else {
            None
        }
    }

    /// The batch on its way out that `key` names.
    pub closed spec fn outbound_at(self, key: u128) -> Option<OutboundView> {
        if self.outbound@.dom().contains(key) {
            Some(self.outbound@[key]@)
        } else {
            None
        }
    }

    /// Whether every batch is one.
    pub closed spec fn wf(self) -> bool {
        &&& pruning::valid_batches(self.inbound@)
        &&& forall|k: u128| #[trigger] self.outbound@.dom().contains(k) ==> self.outbound@[k].wf()
    }

    /// What sending a packet does and gives.
    pub open spec fn sends(
        self,
        next: RS,
        batch_id: BatchID,
        session_id: SessionId,
        fec_info: FECInfo,
        block: Seq<u8>,
        now: Timestamp,
        r: Option<Vec<ParityPacket>>,
    ) -> bool {
        let key = positions::batch_key(batch_id, session_id);
        let before = match self.outbound_at(key) {
            Some(b) => b,
            None => OutboundView::empty(
                fec_info.batch_size,
                fec_info.recovery_count,
            ),
        };
        let after = before.added(block);
        &&& r is Some <==> after.full()
        &&& r matches Some(parities) ==> parities@.len() == after.recovery_count
            && parities@.len() == after.recovery().len() && forall|i: int|
            0 <= i < parities@.len() ==> is_parity_of(
                #[trigger] parities@[i],
                batch_id,
            session_id,
            fec_info,
                i,
                after.recovery()[i],
                now,
            )
        &&& next.outbound_at(key) == (if after.full() {
            None
        } else {
            Some(after)
        })
        &&& forall|k: u128|
            k != key ==> next.outbound_at(k) == self.outbound_at(k)
        &&& forall|k: u128| next.inbound_at(k) == self.inbound_at(k)
    }

    /// What receiving a packet does and gives.
    pub open spec fn receives(
        self,
        next: RS,
        batch_id: BatchID,
        session_id: SessionId,
        fec_info: FECInfo,
        is_parity: bool,
        block: Seq<u8>,
        now: Timestamp,
        recoverable: bool,
    ) -> bool {
        let key = positions::batch_key(batch_id, session_id);
        let pos = fec_info.batch_pos;
        let before = match self.inbound_at(key) {
            Some(b) => b,
            None => InboundView::empty(
                fec_info.batch_size,
                fec_info.recovery_count,
                now,
            ),
        };
        let after = if is_parity {
            before.with_parity(pos, block)
        } else {
            before.added(pos, block)
        };
        let again = !is_parity && pos < before.batch_size
            && before.originals.dom().contains(pos as int);
        &&& recoverable == (!again && after.recoverable())
        &&& next.inbound_at(key) == Some(after)
        &&& forall|k: u128|
            k != key ==> next.inbound_at(k) == self.inbound_at(k)
        &&& forall|k: u128| next.outbound_at(k) == self.outbound_at(k)
    }

    /// What recovering a batch does and gives.
    pub open spec fn recovers(
        self,
        next: RS,
        batch_id: BatchID,
        session_id: SessionId,
        r: Option<Vec<RecoverdPacket>>,
    ) -> bool {
        let key = positions::batch_key(batch_id, session_id);
        let batch = self.inbound_at(key);
        &&& r is Some <==> batch is Some && batch->0.enough()
        &&& r matches Some(packets) ==> packets@.len() == batch->0.restored().len()
            && forall|i: int|
            0 <= i < packets@.len() ==> is_restored(
                #[trigger] packets@[i],
                batch->0.restored()[i].1,
            ) && 0 <= batch->0.restored()[i].0 < batch->0.batch_size
                && !batch->0.originals.dom().contains(batch->0.restored()[i].0)
        &&& r matches Some(packets) ==> forall|all: Seq<Seq<u8>>, i: int|
            #[trigger] batch->0.is_part_of(all) && 0 <= i < packets@.len()
                ==> is_restored(
                #[trigger] packets@[i],
                all[batch->0.restored()[i].0],
            )
        &&& r is Some ==> forall|n: int|
            0 <= n < batch->0.batch_size && !(
            #[trigger] batch->0.originals.dom().contains(n)) ==> exists|i: int|
                0 <= i < batch->0.restored().len() && (#[trigger] batch->0.restored()[i]).0
                    == n
        &&& next.inbound_at(key) is None
        &&& forall|k: u128|
            k != key ==> next.inbound_at(k) == self.inbound_at(k)
        &&& forall|k: u128| next.outbound_at(k) == self.outbound_at(k)
    }

    /// What giving up old batches does and gives.
    pub open spec fn prunes(self, next: RS, ttl_ms: u64, now: Timestamp, out: Seq<Pruned>) -> bool {
        &&& forall|k: u128|
                #[trigger] next.inbound_at(k) == (if expired(
                    self.inbound_at(k),
                    ttl_ms,
                    now,
                ) {
                    None
                } else {
                    self.inbound_at(k)
                })
        &&& forall|k: u128| next.outbound_at(k) == self.outbound_at(k)
        &&& forall|i: int|
                0 <= i < out.len() ==> {
                    let batch = self.inbound_at(pruning::pruned_key(#[trigger] out[i]));
                    expired(batch, ttl_ms, now) && out[i].2@ == batch->0.positions.missing(
                        batch->0.batch_size,
                    )
                }
        &&& forall|i: int, j: int|
                0 <= i < j < out.len() ==> pruning::pruned_key(#[trigger] out[i])
                    != pruning::pruned_key(#[trigger] out[j])
        &&& forall|k: u128|
                expired(#[trigger] self.inbound_at(k), ttl_ms, now) ==> exists|i: int|
                    0 <= i < out.len() && pruning::pruned_key(#[trigger] out[i]) == k
    }

    /// No batches.
    pub fn new() -> (x: Self)
        ensures
            x.wf(),
            forall|k: u128| x.inbound_at(k) is None && x.outbound_at(k) is None,
    {
        RS { inbound: Table::new(), outbound: Table::new() }
    }

    /// Takes in a packet that is sent. Gives the parity packets if the packet was the
    /// last one of its batch.
    pub fn sent(&mut self, packet: &FECPacket, now: Timestamp) -> (r: Option<Vec<ParityPacket>>)
        requires
            old(self).wf(),
            packet.data.wf(),
            packet.fec_info.batch_size > 0,
            packet.fec_info.recovery_count > 0,
        ensures
            final(self).wf(),
            old(self).sends(
                *final(self),
                packet.batch_id,
                packet.session_id,
                packet.fec_info,
                packet.data@,
                now,
                r,
            ),
    {
        let key: u128 = positions::key_of(packet.batch_id, packet.session_id);
        let mut batch: OutboundBatchData = match self.outbound.remove(key) {
            Some(b) => b,
            None => OutboundBatchData::new(
                packet.fec_info.batch_size,
                packet.fec_info.recovery_count,
            ),
        };
        let ghost before = batch@;
        codec::encoder_add(&mut batch.encoder, packet.data.as_bytes());
        batch.received_count += 1;
        assert(batch@ == before.added(packet.data@));
        if batch.received_count < batch.batch_size {
            self.outbound.insert(key, batch);
            return None;
        }
        let ghost after = batch@;
        let shards: Vec<Vec<u8>> = codec::encode(batch.encoder);
        let mut parities: Vec<ParityPacket> = Vec::new();
        let mut i: usize = 0;
        while i < shards.len()
            invariant
                i <= shards@.len() == after.recovery_count,
                codec::shard_views(shards@) == after.recovery(),
                parities@.len() == i,
                forall|k: int|
                    0 <= k < i ==> is_parity_of(
                        #[trigger] parities@[k],
                        packet.batch_id,
                        packet.session_id,
                        packet.fec_info,
                        k,
                        after.recovery()[k],
                        now,
                    ),
            decreases shards.len() - i,
        {
            let shard: &Vec<u8> = &shards[i];
            let payload: Vec<u8> = wire::copy_range(shard.as_slice(), 0, shard.len());
            assert(payload@ =~= codec::shard_views(shards@)[i as int]);
            let fec_info = FECInfo {
                batch_size: packet.fec_info.batch_size,
                batch_pos: i as u8,
                recovery_count: packet.fec_info.recovery_count,
            };
            parities.push(
                *ParityPacket::new(
                    Options::none(),
                    packet.batch_id,
                    fec_info,
                    packet.session_id,
                    payload,
                    now,
                ),
            );
            i += 1;
        }
        Some(parities)
    }

    /// Whether there is such a batch on its way in.
    pub fn has(&self, batch_id: BatchID, session_id: SessionId) -> (r: bool)
        ensures
            r == (self.inbound_at(positions::batch_key(batch_id, session_id)) is Some),
    {
        self.inbound.contains(positions::key_of(batch_id, session_id))
    }

    /// Takes in a packet that came. Says whether its batch can be recovered; of a data
    /// packet that came before, it says no.
    pub fn received(&mut self, packet: FECPacket, now: Timestamp) -> (recoverable: bool)
        requires
            old(self).wf(),
            packet.data.wf(),
            packet.fec_info.batch_size > 0,
            packet.fec_info.recovery_count > 0,
        ensures
            final(self).wf(),
            old(self).receives(
                *final(self),
                packet.batch_id,
                packet.session_id,
                packet.fec_info,
                packet.is_parity,
                packet.data@,
                now,
                recoverable,
            ),
    {
        let key: u128 = positions::key_of(packet.batch_id, packet.session_id);
        let mut batch: InboundBatchData = match self.inbound.remove(key) {
            Some(b) => b,
            None => InboundBatchData::new(
                packet.fec_info.batch_size,
                packet.fec_info.recovery_count,
                now,
            ),
        };
        let mut again: bool = false;
        if packet.is_parity {
            batch.add_parity(&packet);
        } else {
            again = batch.add(&packet);
        }
        let recoverable: bool = !again && batch.recoverable();
        self.inbound.insert(key, batch);
        recoverable
    }

    /// Takes out every batch that is older than `ttl_ms`, and says which packets each of
    /// them misses. The batches come in no particular order.
    pub fn prune(&mut self, ttl_ms: u64, now: Timestamp) -> (out: Vec<Pruned>)
        requires
            old(self).wf(),
        ensures
            final(self).wf(),
            old(self).prunes(*final(self), ttl_ms, now, out@),
    {
        let ghost all = self.inbound@;
        let out = pruning::prune_batches(&mut self.inbound, ttl_ms, now);
        assert forall|k: u128|
            #[trigger] expired(old(self).inbound_at(k), ttl_ms, now) == pruning::expired(
                all,
                k,
                ttl_ms,
                now,
            ) by {}
        out
    }

    /// Takes a batch out and computes the packets that it misses. Gives nothing where
    /// there is no such batch, or where too few of its packets came. Each packet is
    /// the one that was sent, without any padding, if those that came are.
    pub fn recover(&mut self, batch_id: BatchID, session_id: SessionId) -> (r: Option<
        Vec<RecoverdPacket>,
    >)
        requires
            old(self).wf(),
        ensures
            final(self).wf(),
            old(self).recovers(
                *final(self),
                batch_id,
                session_id,
                r,
            ),
    {
        let key: u128 = positions::key_of(batch_id, session_id);
        let batch: InboundBatchData = match self.inbound.remove(key) {
            Some(b) => b,
            None => {
                return None;
            },
        };
        let ghost view = batch@;
        let shards: Vec<(usize, Vec<u8>)> = match codec::decode(batch.decoder) {
            Some(s) => s,
            None => {
                return None;
            },
        };
        assert(codec::indexed_views(shards@) == view.restored());
        let mut packets: Vec<RecoverdPacket> = Vec::new();
        let mut i: usize = 0;
        while i < shards.len()
            invariant
                i <= shards@.len(),
                codec::indexed_views(shards@) == view.restored(),
                forall|k: int|
                    0 <= k < shards@.len() ==> (#[trigger] shards@[k]).1@.len() == FEC_DATA_SIZE,
                packets@.len() == i,
                forall|k: int|
                    0 <= k < i ==> is_restored(#[trigger] packets@[k], shards@[k].1@),
            decreases shards.len() - i,
        {
            assert(shards@[i as int].1@.len() == FEC_DATA_SIZE);
            packets.push(RecoverdPacket::from_shard(shards[i].1.as_slice()));
            i += 1;
        }
        assert forall|k: int| 0 <= k < packets@.len() implies #[trigger] view.restored()[k] == (
            shards@[k].0 as int,
            shards@[k].1@,
        ) by {
            assert(codec::indexed_views(shards@)[k] == (shards@[k].0 as int, shards@[k].1@));
        }
        assert forall|n: int|
            0 <= n < view.batch_size && !(#[trigger] view.originals.dom().contains(
                n,
            )) implies exists|k: int|
            0 <= k < view.restored().len() && (#[trigger] view.restored()[k]).0 == n by {
            let k = choose|k: int| 0 <= k < shards@.len() && (#[trigger] shards@[k]).0 == n;
            assert(view.restored()[k].0 == n);
        }
        Some(packets)
    }
}

/// Whether a packet is the one of a block, its payload cut to the length that the block
/// gives.
pub open spec fn is_restored(packet: RecoverdPacket, block: Seq<u8>) -> bool {
    &&& packet.byte_range_start.0 == wire::rd32(block, 0)
    &&& packet.payload@ == data::payload_in(block)
}

/// Whether a batch is older than `ttl_ms`.
pub open spec fn expired(batch: Option<InboundView>, ttl_ms: u64, now: Timestamp) -> bool {
    batch matches Some(b) && b.created_at.older_than(ttl_ms, now)
}

/// A batch of which nothing came is part of any batch of its size, and stays part of the
/// batch that was sent with every data packet and every parity packet of it that comes. So,
/// as [recovery](RS::recover) says, whichever packets are lost, they are restored as they
/// were sent once as many have come as there are data packets.
pub proof fn arrivals_are_part_of_the_batch(
    all: Seq<Seq<u8>>,
    batch: InboundView,
    pos: u8,
    recovery_count: u8,
    now: Timestamp,
)
    requires
        0 < all.len() <= 255,
        forall|i: int| 0 <= i < all.len() ==> (#[trigger] all[i]).len() == FEC_DATA_SIZE,
    ensures
        InboundView::empty(all.len() as u8, recovery_count, now).is_part_of(all),
        batch.is_part_of(all) && pos < all.len() ==> batch.added(pos, all[pos as int]).is_part_of(
            all,
        ),
        batch.is_part_of(all) ==> batch.with_parity(
            pos,
            (OutboundView {
                shards: all,
                batch_size: batch.batch_size,
                recovery_count: batch.recovery_count,
            }).recovery()[pos as int],
        ).is_part_of(all),
{
}

} // verus!
