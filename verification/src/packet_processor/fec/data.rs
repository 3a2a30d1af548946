//! What recovery works on: a data packet as a block of a fixed size.
use vstd::prelude::*;

use crate::manager::fields::{BatchID, BytePosition, SessionId, MAX_PAYLOAD_LENGTH};
use crate::manager::packets::{DataPacket, ParityPacket};
use crate::manager::ranges::FECInfo;
use crate::wire;

verus! {

/// Number of bytes of a block: the position of the payload, the payload padded to its
/// largest length, and its length.
pub const FEC_DATA_SIZE: usize = 1390;

/// `n` zero bytes.
pub open spec fn zeros(n: nat) -> Seq<u8> {
    Seq::new(n, |i: int| 0u8)
}

/// The block of a payload that stands at `start` of its stream.
pub open spec fn fec_image(start: u32, payload: Seq<u8>) -> Seq<u8> {
    wire::be32(start) + payload + zeros((MAX_PAYLOAD_LENGTH - payload.len()) as nat) + wire::be16(
        payload.len() as u16,
    )
}

/// The block of a parity packet: its payload, padded. One that is too long for a block
/// counts as empty.
pub open spec fn parity_image(payload: Seq<u8>) -> Seq<u8> {
    if payload.len() <= FEC_DATA_SIZE {
        payload + zeros((FEC_DATA_SIZE - payload.len()) as nat)
    } else {
        zeros(FEC_DATA_SIZE as nat)
    }
}

/// The bytes of `a` and `b` combined by exclusive or.
pub open spec fn xor_bytes(a: Seq<u8>, b: Seq<u8>) -> Seq<u8> {
    Seq::new(a.len(), |i: int| a[i] ^ b[i])
}

/// A block.
#[derive(Debug)]
pub struct FECData(Vec<u8>);

impl View for FECData {
    type V = Seq<u8>;

    closed spec fn view(&self) -> Seq<u8> {
        self.0@
    }
}

impl FECData {
    /// Whether the block has the size of a block.
    pub open spec fn wf(self) -> bool {
        self@.len() == FEC_DATA_SIZE
    }

    /// The block of the given bytes.
    pub fn new(bytes: Vec<u8>) -> (d: Self)
        requires
            bytes@.len() == FEC_DATA_SIZE,
        ensures
            d.wf(),
            d@ == bytes@,
    {
        FECData(bytes)
    }

    /// The block of a data packet.
    pub fn of_data(packet: &DataPacket) -> (d: Self)
        requires
            packet.payload@.len() <= MAX_PAYLOAD_LENGTH,
        ensures
            d.wf(),
            d@ == fec_image(packet.byte_range_start.0, packet.payload@),
    {
        let mut bytes: Vec<u8> = Vec::new();
        wire::put_u32(&mut bytes, packet.byte_range_start.0);
        wire::put_bytes(&mut bytes, packet.payload.as_slice());
        pad(&mut bytes, 4 + MAX_PAYLOAD_LENGTH);
        wire::put_u16(&mut bytes, packet.payload.len() as u16);
        assert(bytes@ =~= fec_image(packet.byte_range_start.0, packet.payload@));
        FECData(bytes)
    }

    /// The block of a parity packet.
    pub fn of_parity(packet: &ParityPacket) -> (d: Self)
        ensures
            d.wf(),
            d@ == parity_image(packet.payload@),
    {
        let mut bytes: Vec<u8> = Vec::new();
        if packet.payload.len() <= FEC_DATA_SIZE {
            wire::put_bytes(&mut bytes, packet.payload.as_slice());
        }
        pad(&mut bytes, FEC_DATA_SIZE);
        assert(bytes@ =~= parity_image(packet.payload@));
        FECData(bytes)
    }

    /// Combines the block with another by exclusive or.
    pub fn xor_assign(&mut self, rhs: &FECData)
        requires
            old(self).wf(),
            rhs.wf(),
        ensures
            final(self).wf(),
            final(self)@ == xor_bytes(old(self)@, rhs@),
    {
        let mut i: usize = 0;
        while i < self.0.len()
            invariant
                i <= self.0@.len(),
                self.0@.len() == FEC_DATA_SIZE,
                rhs.wf(),
                old(self)@.len() == FEC_DATA_SIZE,
                forall|k: int| 0 <= k < i ==> self.0@[k] == old(self)@[k] ^ rhs@[k],
                forall|k: int| i <= k < FEC_DATA_SIZE ==> self.0@[k] == old(self)@[k],
            decreases FEC_DATA_SIZE - i,
        {
            let b: u8 = self.0[i] ^ rhs.0[i];
            self.0.set(i, b);
            i += 1;
        }
        assert(self@ =~= xor_bytes(old(self)@, rhs@));
    }

    /// The position that the block starts with.
    pub fn start(&self) -> (p: BytePosition)
        requires
            self.wf(),
        ensures
            p.0 == wire::rd32(self@, 0),
    {
        BytePosition(wire::get_u32(self.0.as_slice(), 0))
    }

    /// The bytes of the block.
    pub fn as_bytes(&self) -> (bytes: &Vec<u8>)
        ensures
            bytes@ == self@,
    {
        &self.0
    }

    /// The bytes of the block.
    pub fn into_bytes(self) -> (bytes: Vec<u8>)
        ensures
            bytes@ == self@,
    {
        self.0
    }
}

impl Default for FECData {
    fn default() -> (d: Self)
        ensures
            d.wf(),
            d@ == zeros(FEC_DATA_SIZE as nat),
    {
        let mut bytes: Vec<u8> = Vec::new();
        pad(&mut bytes, FEC_DATA_SIZE);
        assert(bytes@ =~= zeros(FEC_DATA_SIZE as nat));
        FECData(bytes)
    }
}

/// Appends zero bytes up to the length `to`.
fn pad(bytes: &mut Vec<u8>, to: usize)
    requires
        old(bytes)@.len() <= to,
    ensures
        final(bytes)@ == old(bytes)@ + zeros((to - old(bytes)@.len()) as nat),
{
    while bytes.len() < to
        invariant
            old(bytes)@.len() <= bytes@.len() <= to,
            bytes@ =~= old(bytes)@ + zeros((bytes@.len() - old(bytes)@.len()) as nat),
        decreases to - bytes@.len(),
    {
        bytes.push(0);
    }
}

/// A packet that was lost and computed again.
#[derive(Debug)]
pub struct RecoverdPacket {
    pub byte_range_start: BytePosition,
    pub payload: Vec<u8>,
}

/// The bytes are too few for a block.
#[derive(Debug)]
pub struct NotARecoveredPacket;

/// The payload that a block holds.
pub open spec fn payload_in(block: Seq<u8>) -> Seq<u8> {
    let n = wire::rd16(block, FEC_DATA_SIZE - 2);
    block.subrange(
        4,
        if n > MAX_PAYLOAD_LENGTH {
            4 + MAX_PAYLOAD_LENGTH as int
        } else {
            4 + n as int
        },
    )
}

impl RecoverdPacket {
    /// The packet that a block holds, its payload cut to the length that the block
    /// gives.
    pub fn from_block(block: &FECData) -> (r: Self)
        requires
            block.wf(),
        ensures
            r.byte_range_start.0 == wire::rd32(block@, 0),
            r.payload@ == payload_in(block@),
    {
        RecoverdPacket::from_shard(block.0.as_slice())
    }

    /// The packet that the bytes of a block hold, its payload cut to the length that the
    /// block gives.
    pub fn from_shard(value: &[u8]) -> (r: Self)
        requires
            value@.len() == FEC_DATA_SIZE,
        ensures
            r.byte_range_start.0 == wire::rd32(value@, 0),
            r.payload@ == payload_in(value@),
    {
        let n: usize = wire::get_u16(value, FEC_DATA_SIZE - 2) as usize;
        let end: usize = if n > MAX_PAYLOAD_LENGTH {
            4 + MAX_PAYLOAD_LENGTH
        } else {
            4 + n
        };
        RecoverdPacket {
            byte_range_start: BytePosition(wire::get_u32(value, 0)),
            payload: wire::copy_range(value, 4, end),
        }
    }

    /// The packet that the bytes of a block hold, its payload with all the padding.
    pub fn try_from_bytes(value: &[u8]) -> (r: Result<Self, NotARecoveredPacket>)
        ensures
            r is Ok <==> value@.len() >= FEC_DATA_SIZE,
            r matches Ok(p) ==> p.byte_range_start.0 == wire::rd32(value@, 0) && p.payload@
                == value@.subrange(4, 4 + MAX_PAYLOAD_LENGTH as int),
    {
        if value.len() < FEC_DATA_SIZE {
            Err(NotARecoveredPacket)
        } else {
            Ok(
                RecoverdPacket {
                    byte_range_start: BytePosition(wire::get_u32(value, 0)),
                    payload: wire::copy_range(value, 4, 4 + MAX_PAYLOAD_LENGTH),
                },
            )
        }
    }
}

/// The packets of a batch that were lost and computed again.
#[derive(Debug)]
pub struct Recovered {
    pub session_id: SessionId,
    pub batch_id: BatchID,
    pub packets: Vec<RecoverdPacket>,
}

/// A packet as recovery sees it.
#[derive(Debug)]
pub struct FECPacket {
    pub is_parity: bool,
    pub session_id: SessionId,
    pub batch_id: BatchID,
    pub fec_info: FECInfo,
    pub data: FECData,
}

impl FECPacket {
    /// A data packet as recovery sees it.
    pub open spec fn is_of_data(self, packet: DataPacket) -> bool {
        &&& !self.is_parity
        &&& self.session_id == packet.session_id
        &&& self.batch_id == packet.batch_id
        &&& self.fec_info == packet.fec_info
        &&& self.data.wf()
        &&& self.data@ == fec_image(packet.byte_range_start.0, packet.payload@)
    }

    /// A parity packet as recovery sees it.
    pub open spec fn is_of_parity(self, packet: ParityPacket) -> bool {
        &&& self.is_parity
        &&& self.session_id == packet.session_id
        &&& self.batch_id == packet.batch_id
        &&& self.fec_info == packet.fec_info
        &&& self.data.wf()
        &&& self.data@ == parity_image(packet.payload@)
    }

    /// A data packet as recovery sees it.
    pub fn from_data(packet: &DataPacket) -> (f: Self)
        requires
            packet.payload@.len() <= MAX_PAYLOAD_LENGTH,
        ensures
            f.is_of_data(*packet),
    {
        FECPacket {
            is_parity: false,
            session_id: packet.session_id,
            batch_id: packet.batch_id,
            fec_info: packet.fec_info,
            data: FECData::of_data(packet),
        }
    }

    /// A parity packet as recovery sees it.
    pub fn from_parity(packet: &ParityPacket) -> (f: Self)
        ensures
            f.is_of_parity(*packet),
    {
        FECPacket {
            is_parity: true,
            session_id: packet.session_id,
            batch_id: packet.batch_id,
            fec_info: packet.fec_info,
            data: FECData::of_parity(packet),
        }
    }
}

/// A block holds the packet that it was made of.
pub proof fn block_holds_packet(start: u32, payload: Seq<u8>)
    requires
        payload.len() <= MAX_PAYLOAD_LENGTH,
    ensures
        fec_image(start, payload).len() == FEC_DATA_SIZE,
        wire::rd32(fec_image(start, payload), 0) == start,
        payload_in(fec_image(start, payload)) == payload,
{
    let block = fec_image(start, payload);
    let n = payload.len() as u16;
    assert(block.subrange(0, 4) =~= wire::be32(start));
    assert(wire::rd32(block, 0) == start) by {
        wire::lemma_rd32(block, 0, start);
    }
    assert(block.subrange(FEC_DATA_SIZE - 2, FEC_DATA_SIZE as int) =~= wire::be16(n));
    assert(wire::rd16(block, FEC_DATA_SIZE - 2) == n) by {
        wire::lemma_rd16(block, FEC_DATA_SIZE - 2, n);
    }
    assert(block.subrange(4, 4 + n as int) =~= payload);
}

} // verus!
