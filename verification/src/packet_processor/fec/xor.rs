//! Recovery of one lost packet per batch: the parity of a batch is all of its packets
//! combined by exclusive or.
use vstd::prelude::*;

use crate::manager::fields::{
    BatchID, BytePosition, Options, PacketType, SessionId, Version, CURRENT_VERSION,
};
use crate::manager::packets::ParityPacket;
use crate::manager::ranges::FECInfo;
use crate::manager::types::Timestamp;
use crate::packet_processor::fec::data;
use crate::packet_processor::fec::data::{FECData, FECPacket, RecoverdPacket, FEC_DATA_SIZE};
use crate::packet_processor::fec::positions;
use crate::packet_processor::fec::positions::{Positions, PositionsView};
use crate::packet_processor::fec::pruning;
use crate::packet_processor::fec::pruning::{Batch, Pruned};
use crate::utils::table::Table;
use crate::utils::Flags;
use crate::wire;

verus! {

/// A batch on its way in: all of its packets that came combined, and the parity if it
/// came.
#[verifier::ext_equal]
pub struct InboundView {
    pub product: Seq<u8>,
    pub parity: Option<Seq<u8>>,
    pub batch_size: u8,
    pub data_received: u8,
    pub positions: PositionsView,
    pub created_at: Timestamp,
}

impl InboundView {
    /// A batch of which nothing came.
    pub open spec fn empty(batch_size: u8, now: Timestamp) -> InboundView {
        InboundView {
            product: data::zeros(FEC_DATA_SIZE as nat),
            parity: None,
            batch_size,
            data_received: 0,
            positions: PositionsView::empty(),
            created_at: now,
        }
    }

    /// Whether the packet at `pos` still counts.
    pub open spec fn wants(self, pos: u8) -> bool {
        self.data_received < self.batch_size && !self.positions.mask[pos as int]
    }

    /// The batch with one more packet. A packet that came before, or that comes to a
    /// full batch, changes nothing.
    pub open spec fn added(self, pos: u8, block: Seq<u8>) -> InboundView {
        if self.wants(pos) {
            InboundView {
                product: data::xor_bytes(self.product, block),
                data_received: (self.data_received + 1) as u8,
                positions: self.positions.noted(pos, BytePosition(wire::rd32(block, 0))),
                ..self
            }
        } else {
            self
        }
    }

    /// The batch with its parity. The first one counts.
    pub open spec fn with_parity(self, block: Seq<u8>) -> InboundView {
        InboundView {
            parity: match self.parity {
                Some(p) => Some(p),
                None => Some(block),
            },
            ..self
        }
    }

    /// Whether the batch misses one packet, and has its parity.
    pub open spec fn recoverable(self) -> bool {
        self.data_received + 1 == self.batch_size && self.parity is Some
    }

    /// The packet that the batch misses.
    pub open spec fn recovered(self) -> Option<Seq<u8>> {
        if self.recoverable() {
            Some(data::xor_bytes(self.product, self.parity->0))
        } else {
            None
        }
    }
}

/// A batch on its way in.
#[derive(Debug)]
struct InboundBatchData {
    product: FECData,
    parity: Option<FECData>,
    batch_size: u8,
    data_received: u8,
    positions: Positions,
    created_at: Timestamp,
}

impl View for InboundBatchData {
    type V = InboundView;

    closed spec fn view(&self) -> InboundView {
        InboundView {
            product: self.product@,
            parity: match self.parity {
                Some(p) => Some(p@),
                None => None,
            },
            batch_size: self.batch_size,
            data_received: self.data_received,
            positions: self.positions@,
            created_at: self.created_at,
        }
    }
}

impl InboundBatchData {
    closed spec fn wf(self) -> bool {
        &&& self.product.wf()
        &&& self.parity matches Some(p) ==> p.wf()
        &&& self.positions.wf()
        &&& self.data_received <= self.batch_size
    }

    /// A batch of which nothing came.
    fn new(batch_size: u8, now: Timestamp) -> (b: Self)
        ensures
            b.wf(),
            b@ == InboundView::empty(batch_size, now),
    {
        InboundBatchData {
            product: FECData::default(),
            parity: None,
            batch_size,
            data_received: 0,
            positions: Positions::new(),
            created_at: now,
        }
    }

    /// Adds a packet. Says whether it counted.
    fn add(&mut self, pos: u8, block: &FECData) -> (counted: bool)
        requires
            old(self).wf(),
            block.wf(),
        ensures
            final(self).wf(),
            counted == old(self)@.wants(pos),
            final(self)@ == old(self)@.added(pos, block@),
    {
        if self.data_received < self.batch_size && !self.positions.has(pos) {
            self.positions.note(pos, block.start());
            self.product.xor_assign(block);
            self.data_received += 1;
            true
        } else {
            false
        }
    }

    /// Takes the parity. Says whether it is the first.
    fn parity(&mut self, parity: FECData) -> (first: bool)
        requires
            old(self).wf(),
            parity.wf(),
        ensures
            final(self).wf(),
            first == (old(self)@.parity is None),
            final(self)@ == old(self)@.with_parity(parity@),
    {
        if self.parity.is_some() {
            false
        } else {
            self.parity = Some(parity);
            true
        }
    }

    /// Whether the batch misses one packet, and has its parity.
    fn recoverable(&self) -> (r: bool)
        requires
            self.wf(),
        ensures
            r == self@.recoverable(),
    {
        self.data_received < self.batch_size && self.data_received + 1 == self.batch_size
            && self.parity.is_some()
    }

    /// The packet that the batch misses.
    fn recover(self) -> (r: Option<FECData>)
        requires
            self.wf(),
        ensures
            match (r, self@.recovered()) {
                (Some(block), Some(bytes)) => block.wf() && block@ == bytes,
                (None, None) => true,
                _ => false,
            },
    {
        if !self.recoverable() {
            return None;
        }
        let mut product: FECData = self.product;
        match self.parity {
            Some(parity) => {
                product.xor_assign(&parity);
                Some(product)
            },
            None => None,
        }
    }
}

impl Batch for InboundBatchData {
    closed spec fn valid(&self) -> bool {
        self.wf()
    }

    closed spec fn born(&self) -> Timestamp {
        self@.created_at
    }

    closed spec fn misses(&self) -> Seq<BytePosition> {
        self@.positions.missing(self@.batch_size)
    }

    fn created(&self) -> (t: Timestamp) {
        self.created_at
    }

    fn missing_positions(&self) -> (missing: Vec<BytePosition>) {
        self.positions.missing(self.batch_size)
    }
}

/// A batch on its way out: its packets so far combined.
#[verifier::ext_equal]
pub struct OutboundView {
    pub product: Seq<u8>,
    pub batch_size: u8,
    pub current_size: int,
}

impl OutboundView {
    /// A batch of which nothing was sent.
    pub open spec fn empty(batch_size: u8) -> OutboundView {
        OutboundView { product: data::zeros(FEC_DATA_SIZE as nat), batch_size, current_size: 0 }
    }

    /// The batch with one more packet.
    pub open spec fn added(self, block: Seq<u8>) -> OutboundView {
        OutboundView {
            product: data::xor_bytes(self.product, block),
            current_size: self.current_size + 1,
            ..self
        }
    }

    /// Whether every packet was sent.
    pub open spec fn full(self) -> bool {
        self.current_size == self.batch_size
    }
}

/// A batch on its way out.
#[derive(Debug)]
struct OutboundBatchData {
    product: FECData,
    batch_size: u8,
    current_size: u8,
}

impl View for OutboundBatchData {
    type V = OutboundView;

    closed spec fn view(&self) -> OutboundView {
        OutboundView {
            product: self.product@,
            batch_size: self.batch_size,
            current_size: self.current_size as int,
        }
    }
}

impl OutboundBatchData {
    closed spec fn wf(self) -> bool {
        self.product.wf() && self.current_size < self.batch_size
    }

    /// A batch of which nothing was sent.
    fn new(batch_size: u8) -> (b: Self)
        requires
            batch_size > 0,
        ensures
            b.wf(),
            b@ == OutboundView::empty(batch_size),
    {
        OutboundBatchData { product: FECData::default(), batch_size, current_size: 0 }
    }

    /// Adds a packet. Says whether it is the last one.
    fn add(&mut self, block: &FECData) -> (full: bool)
        requires
            old(self).wf(),
            block.wf(),
        ensures
            final(self)@ == old(self)@.added(block@),
            final(self).product.wf(),
            full == final(self)@.full(),
            !full ==> final(self).wf(),
    {
        self.product.xor_assign(block);
        self.current_size += 1;
        self.batch_size == self.current_size
    }
}

/// The batches of all sessions that are recovered by exclusive or.
#[derive(Debug)]
pub struct Xor {
    inbound: Table<u128, InboundBatchData>,
    outbound: Table<u128, OutboundBatchData>,
}

/// The parity packet of a full batch.
pub open spec fn is_parity_of(
    parity: ParityPacket,
    batch_id: BatchID,
    session_id: SessionId,
    fec_info: FECInfo,
    product: Seq<u8>,
    now: Timestamp,
) -> bool {
    &&& parity.version == Version(CURRENT_VERSION)
    &&& parity.packet_type == PacketType::Parity
    &&& parity.opts == Options(0)
    &&& parity.batch_id == batch_id
    &&& parity.session_id == session_id
    &&& parity.fec_info == (FECInfo {
        batch_size: fec_info.batch_size,
        batch_pos: 0,
        recovery_count: 1,
    })
    &&& parity.payload@ == product
    &&& parity.timestamp == now
}

impl Xor {
    /// The batch on its way in that `key` names.
    pub closed spec fn inbound_at(self, key: u128) -> Option<InboundView> {
        if self.inbound@.dom().contains(key) {
            Some(self.inbound@[key]@)
        } else {
            None
        }
    }

    /// The batch on its way out that `key` names.
    pub closed spec fn outbound_at(self, key: u128) -> Option<OutboundView> {
        if self.outbound@.dom().contains(key) {
            Some(self.outbound@[key]@)
        } else {
            None
        }
    }

    /// Whether every batch is one.
    pub closed spec fn wf(self) -> bool {
        &&& pruning::valid_batches(self.inbound@)
        &&& forall|k: u128| #[trigger] self.outbound@.dom().contains(k) ==> self.outbound@[k].wf()
    }

    /// What sending a packet does and gives.
    pub open spec fn sends(
        self,
        next: Xor,
        batch_id: BatchID,
        session_id: SessionId,
        fec_info: FECInfo,
        block: Seq<u8>,
        now: Timestamp,
        r: Option<Vec<ParityPacket>>,
    ) -> bool {
        let key = positions::batch_key(batch_id, session_id);
        let before = match self.outbound_at(key) {
            Some(b) => b,
            None => OutboundView::empty(fec_info.batch_size),
        };
        let after = before.added(block);
        &&& r is Some <==> after.full()
        &&& r matches Some(parities) ==> parities@.len() == 1 && is_parity_of(
            parities@[0],
            batch_id,
            session_id,
            fec_info,
            after.product,
            now,
        )
        &&& next.outbound_at(key) == (if after.full() {
            None
        } else {
            Some(after)
        })
        &&& forall|k: u128|
            k != key ==> next.outbound_at(k) == self.outbound_at(k)
        &&& forall|k: u128| next.inbound_at(k) == self.inbound_at(k)
    }

    /// What receiving a packet does and gives.
    pub open spec fn receives(
        self,
        next: Xor,
        batch_id: BatchID,
        session_id: SessionId,
        fec_info: FECInfo,
        is_parity: bool,
        block: Seq<u8>,
        now: Timestamp,
        recoverable: bool,
    ) -> bool {
        let key = positions::batch_key(batch_id, session_id);
        let before = match self.inbound_at(key) {
            Some(b) => b,
            None => InboundView::empty(fec_info.batch_size, now),
        };
        let after = if is_parity {
            before.with_parity(block)
        } else {
            before.added(fec_info.batch_pos, block)
        };
        &&& recoverable == after.recoverable()
        &&& next.inbound_at(key) == Some(after)
        &&& forall|k: u128|
            k != key ==> next.inbound_at(k) == self.inbound_at(k)
        &&& forall|k: u128| next.outbound_at(k) == self.outbound_at(k)
    }

    /// What recovering a batch does and gives.
    pub open spec fn recovers(
        self,
        next: Xor,
        batch_id: BatchID,
        session_id: SessionId,
        r: Option<Vec<RecoverdPacket>>,
    ) -> bool {
        let key = positions::batch_key(batch_id, session_id);
        let block = match self.inbound_at(key) {
            Some(b) => b.recovered(),
            None => None,
        };
        &&& r is Some <==> block is Some
        &&& r matches Some(packets) ==> packets@.len() == 1
            && packets@[0].byte_range_start.0 == wire::rd32(block->0, 0)
            && packets@[0].payload@ == data::payload_in(block->0)
        &&& next.inbound_at(key) is None
        &&& forall|k: u128|
            k != key ==> next.inbound_at(k) == self.inbound_at(k)
        &&& forall|k: u128| next.outbound_at(k) == self.outbound_at(k)
    }

    /// What giving up old batches does and gives.
    pub open spec fn prunes(self, next: Xor, ttl_ms: u64, now: Timestamp, out: Seq<Pruned>) -> bool {
        &&& forall|k: u128|
                #[trigger] next.inbound_at(k) == (if expired(
                    self.inbound_at(k),
                    ttl_ms,
                    now,
                ) {
                    None
                } else {
                    self.inbound_at(k)
                })
        &&& forall|k: u128| next.outbound_at(k) == self.outbound_at(k)
        &&& forall|i: int|
                0 <= i < out.len() ==> {
                    let batch = self.inbound_at(pruning::pruned_key(#[trigger] out[i]));
                    expired(batch, ttl_ms, now) && out[i].2@ == batch->0.positions.missing(
                        batch->0.batch_size,
                    )
                }
        &&& forall|i: int, j: int|
                0 <= i < j < out.len() ==> pruning::pruned_key(#[trigger] out[i]) != pruning::pruned_key(
                    #[trigger] out[j],
                )
        &&& forall|k: u128|
                expired(#[trigger] self.inbound_at(k), ttl_ms, now) ==> exists|i: int|
                    0 <= i < out.len() && pruning::pruned_key(#[trigger] out[i]) == k
    }

    /// No batches.
    pub fn new() -> (x: Self)
        ensures
            x.wf(),
            forall|k: u128| x.inbound_at(k) is None && x.outbound_at(k) is None,
    {
        Xor { inbound: Table::new(), outbound: Table::new() }
    }

    /// Takes in a packet that is sent. Gives the parity packet if the packet was the
    /// last one of its batch.
    pub fn sent(&mut self, packet: &FECPacket, now: Timestamp) -> (r: Option<Vec<ParityPacket>>)
        requires
            old(self).wf(),
            packet.data.wf(),
            packet.fec_info.batch_size > 0,
        ensures
            final(self).wf(),
            old(self).sends(
                *final(self),
                packet.batch_id,
                packet.session_id,
                packet.fec_info,
                packet.data@,
                now,
                r,
            ),
    {
        let key: u128 = positions::key_of(packet.batch_id, packet.session_id);
        let mut batch: OutboundBatchData = match self.outbound.remove(key) {
            Some(b) => b,
            None => OutboundBatchData::new(packet.fec_info.batch_size),
        };
        if batch.add(&packet.data) {
            let fec_info = FECInfo {
                batch_size: packet.fec_info.batch_size,
                batch_pos: 0,
                recovery_count: 1,
            };
            let parity: ParityPacket = *ParityPacket::new(
                Options::none(),
                packet.batch_id,
                fec_info,
                packet.session_id,
                batch.product.into_bytes(),
                now,
            );
            let mut parities: Vec<ParityPacket> = Vec::new();
            parities.push(parity);
            Some(parities)
        } else {
            self.outbound.insert(key, batch);
            None
        }
    }

    /// Whether there is such a batch on its way in.
    pub fn has(&self, batch_id: BatchID, session_id: SessionId) -> (r: bool)
        ensures
            r == (self.inbound_at(positions::batch_key(batch_id, session_id)) is Some),
    {
        self.inbound.contains(positions::key_of(batch_id, session_id))
    }

    /// Takes in a packet that came. Says whether its batch can be recovered.
    pub fn received(&mut self, packet: FECPacket, now: Timestamp) -> (recoverable: bool)
        requires
            old(self).wf(),
            packet.data.wf(),
        ensures
            final(self).wf(),
            old(self).receives(
                *final(self),
                packet.batch_id,
                packet.session_id,
                packet.fec_info,
                packet.is_parity,
                packet.data@,
                now,
                recoverable,
            ),
    {
        let key: u128 = positions::key_of(packet.batch_id, packet.session_id);
        let mut batch: InboundBatchData = match self.inbound.remove(key) {
            Some(b) => b,
            None => InboundBatchData::new(packet.fec_info.batch_size, now),
        };
        if packet.is_parity {
            let _ = batch.parity(packet.data);
        } else {
            let _ = batch.add(packet.fec_info.batch_pos, &packet.data);
        }
        let recoverable: bool = batch.recoverable();
        self.inbound.insert(key, batch);
        recoverable
    }

    /// Takes a batch out and computes the packet that it misses. Gives nothing where
    /// there is no such batch, or where it cannot be recovered.
    pub fn recover(&mut self, batch_id: BatchID, session_id: SessionId) -> (r: Option<
        Vec<RecoverdPacket>,
    >)
        requires
            old(self).wf(),
        ensures
            final(self).wf(),
            old(self).recovers(
                *final(self),
                batch_id,
                session_id,
                r,
            ),
    {
        let key: u128 = positions::key_of(batch_id, session_id);
        match self.inbound.remove(key) {
            None => None,
            Some(batch) => match batch.recover() {
                None => None,
                Some(block) => {
                    let mut packets: Vec<RecoverdPacket> = Vec::new();
                    packets.push(RecoverdPacket::from_block(&block));
                    Some(packets)
                },
            },
        }
    }

    /// Takes out every batch that is older than `ttl_ms`, and says which packets each of
    /// them misses. The batches come in no particular order.
    pub fn prune(&mut self, ttl_ms: u64, now: Timestamp) -> (out: Vec<Pruned>)
        requires
            old(self).wf(),
        ensures
            final(self).wf(),
            old(self).prunes(*final(self), ttl_ms, now, out@),
    {
        let ghost all = self.inbound@;
        let out = pruning::prune_batches(&mut self.inbound, ttl_ms, now);
        assert forall|k: u128|
            #[trigger] expired(old(self).inbound_at(k), ttl_ms, now) == pruning::expired(
                all,
                k,
                ttl_ms,
                now,
            ) by {}
        out
    }
}

/// Whether a batch is older than `ttl_ms`.
pub open spec fn expired(batch: Option<InboundView>, ttl_ms: u64, now: Timestamp) -> bool {
    batch matches Some(b) && b.created_at.older_than(ttl_ms, now)
}

} // verus!
