//! What the packet processor and the transport hand each other.
use vstd::prelude::*;

use crate::manager::fields::PacketType;
use crate::manager::identity::Address;

verus! {

/// A packet as it goes out.
#[derive(Debug)]
pub struct ProcessedPacket {
    pub dest_addr: Address,
    pub packet_type: PacketType,
    pub data: Vec<u8>,
    /// How often it is sent.
    pub duplicate_count: usize,
}

/// A packet as it goes out, for contracts.
#[verifier::ext_equal]
pub struct ProcessedView {
    pub dest_addr: Address,
    pub packet_type: PacketType,
    pub data: Seq<u8>,
    pub duplicate_count: usize,
}

impl View for ProcessedPacket {
    type V = ProcessedView;

    open spec fn view(&self) -> ProcessedView {
        ProcessedView {
            dest_addr: self.dest_addr,
            packet_type: self.packet_type,
            data: self.data@,
            duplicate_count: self.duplicate_count,
        }
    }
}

/// Packets as they go out, in order.
pub open spec fn processed_views(packets: Seq<ProcessedPacket>) -> Seq<ProcessedView> {
    Seq::new(packets.len(), |i: int| packets[i]@)
}

/// Adds one more packet.
pub fn push_processed(packets: &mut Vec<ProcessedPacket>, packet: ProcessedPacket)
    ensures
        processed_views(final(packets)@) == processed_views(old(packets)@).push(packet@),
{
    let ghost before = packets@;
    packets.push(packet);
    assert(processed_views(packets@) =~= processed_views(before).push(packet@));
}

/// A packet as it came in.
#[derive(Debug)]
pub struct ReceivedPacket {
    pub src_addr: Address,
    pub data: Vec<u8>,
}

} // verus!
