//! Every packet that keeps to the limits of its kind is small enough to be sent.
use vstd::prelude::*;

use crate::manager::fields::MAX_PAYLOAD_LENGTH;
use crate::manager::images::{
    AckPacket, AppRejectErrorPacket, CloseSessionPacket, DataPacket, HandshakeAckPacket,
    HandshakeRejection, HelloPacket, KeepAlivePacket, MetadataPacket, ParityPacket,
    RetransmitPacket, SessionDoesNotExistErrorPacket, TrackRejectionPacket, TrackRequestPacket,
    UnexpectedPacketErrorPacket,
};
use crate::manager::packets::{
    IncompatibleVersionPacket, Packet, PlaybackStatusPacket, MAX_RANGES_PER_PACKET,
};
use crate::manager::ranges;
use crate::packet_processor::fec::data::FEC_DATA_SIZE;
use crate::packet_processor::serialize::Serialize;
use crate::transport::types::{MAX_DATAGRAM_SIZE, MAX_PACKET_SIZE};

verus! {

/// Whether what a packet carries keeps to the limit of its kind. A hello packet has 62 bytes
/// besides the id of the application.
pub open spec fn in_limits(packet: Packet) -> bool {
    match packet {
        Packet::HelloPacket(p) => p.app_id@.len() <= MAX_PACKET_SIZE - 62,
        Packet::TrackRequestPacket(p) => p.payload@.len() <= MAX_PAYLOAD_LENGTH,
        Packet::DataPacket(p) => p.payload@.len() <= MAX_PAYLOAD_LENGTH,
        Packet::MetadataPacket(p) => p.payload@.len() <= MAX_PAYLOAD_LENGTH,
        Packet::ParityPacket(p) => p.payload@.len() <= FEC_DATA_SIZE,
        Packet::RetransmitPacket(p) => p.payload@.len() <= MAX_RANGES_PER_PACKET,
        Packet::AppRejectErrorPacket(p) => p.payload@.len() <= MAX_PAYLOAD_LENGTH,
        Packet::HandshakeRejection(p) => p.payload@.len() <= MAX_PAYLOAD_LENGTH,
        Packet::TrackRejectionPacket(p) => p.payload@.len() <= MAX_PAYLOAD_LENGTH,
        _ => true,
    }
}

proof fn lemma_hello(p: HelloPacket)
    requires
        p.app_id@.len() <= MAX_PACKET_SIZE - 62,
    ensures
        p.image().len() <= MAX_PACKET_SIZE,
{
}

proof fn lemma_track_request(p: TrackRequestPacket)
    requires
        p.payload@.len() <= MAX_PAYLOAD_LENGTH,
    ensures
        p.image().len() <= MAX_PACKET_SIZE,
{
}

proof fn lemma_data(p: DataPacket)
    requires
        p.payload@.len() <= MAX_PAYLOAD_LENGTH,
    ensures
        p.image().len() <= MAX_PACKET_SIZE,
{
}

proof fn lemma_metadata(p: MetadataPacket)
    requires
        p.payload@.len() <= MAX_PAYLOAD_LENGTH,
    ensures
        p.image().len() <= MAX_PACKET_SIZE,
{
}

proof fn lemma_parity(p: ParityPacket)
    requires
        p.payload@.len() <= FEC_DATA_SIZE,
    ensures
        p.image().len() <= MAX_PACKET_SIZE,
{
}

proof fn lemma_ack(p: AckPacket)
    ensures
        p.image().len() <= MAX_PACKET_SIZE,
{
}

proof fn lemma_retransmit(p: RetransmitPacket)
    requires
        p.payload@.len() <= MAX_RANGES_PER_PACKET,
    ensures
        p.image().len() <= MAX_PACKET_SIZE,
{
    ranges::lemma_ranges_image_len(p.payload@);
}

proof fn lemma_playback_status(p: PlaybackStatusPacket)
    ensures
        p.image().len() <= MAX_PACKET_SIZE,
{
}

proof fn lemma_incompatible_version(p: IncompatibleVersionPacket)
    ensures
        p.image().len() <= MAX_PACKET_SIZE,
{
}

proof fn lemma_session_does_not_exist(p: SessionDoesNotExistErrorPacket)
    ensures
        p.image().len() <= MAX_PACKET_SIZE,
{
}

proof fn lemma_unexpected_packet(p: UnexpectedPacketErrorPacket)
    ensures
        p.image().len() <= MAX_PACKET_SIZE,
{
}

proof fn lemma_app_reject(p: AppRejectErrorPacket)
    requires
        p.payload@.len() <= MAX_PAYLOAD_LENGTH,
    ensures
        p.image().len() <= MAX_PACKET_SIZE,
{
}

proof fn lemma_keep_alive(p: KeepAlivePacket)
    ensures
        p.image().len() <= MAX_PACKET_SIZE,
{
}

proof fn lemma_close_session(p: CloseSessionPacket)
    ensures
        p.image().len() <= MAX_PACKET_SIZE,
{
}

proof fn lemma_handshake_ack(p: HandshakeAckPacket)
    ensures
        p.image().len() <= MAX_PACKET_SIZE,
{
}

proof fn lemma_handshake_rejection(p: HandshakeRejection)
    requires
        p.payload@.len() <= MAX_PAYLOAD_LENGTH,
    ensures
        p.image().len() <= MAX_PACKET_SIZE,
{
}

proof fn lemma_track_rejection(p: TrackRejectionPacket)
    requires
        p.payload@.len() <= MAX_PAYLOAD_LENGTH,
    ensures
        p.image().len() <= MAX_PACKET_SIZE,
{
}

/// A peer has room to receive a hello packet whatever the id of the application, even one
/// that makes the packet larger than [`MAX_PACKET_SIZE`].
pub proof fn every_hello_can_be_received(packet: HelloPacket)
    requires
        packet.writable(),
    ensures
        packet.image().len() <= MAX_DATAGRAM_SIZE,
{
}

/// A packet that keeps to the limit of its kind is never larger than a packet may be, before
/// it is protected.
pub proof fn sizes_fit(packet: Packet)
    requires
        in_limits(packet),
    ensures
        packet.image().len() <= MAX_PACKET_SIZE,
{
    match packet {
        Packet::HelloPacket(p) => lemma_hello(*p),
        Packet::TrackRequestPacket(p) => lemma_track_request(*p),
        Packet::DataPacket(p) => lemma_data(*p),
        Packet::MetadataPacket(p) => lemma_metadata(*p),
        Packet::ParityPacket(p) => lemma_parity(*p),
        Packet::AckPacket(p) => lemma_ack(*p),
        Packet::RetransmitPacket(p) => lemma_retransmit(*p),
        Packet::PlaybackStatusPacket(p) => lemma_playback_status(*p),
        Packet::IncompatibleVersionPacket(p) => lemma_incompatible_version(*p),
        Packet::SessionDoesNotExistErrorPacket(p) => lemma_session_does_not_exist(*p),
        Packet::UnexpectedPacketErrorPacket(p) => lemma_unexpected_packet(*p),
        Packet::AppRejectErrorPacket(p) => lemma_app_reject(*p),
        Packet::KeepAlivePacket(p) => lemma_keep_alive(*p),
        Packet::CloseSessionPacket(p) => lemma_close_session(*p),
        Packet::HandshakeAckPacket(p) => lemma_handshake_ack(*p),
        Packet::HandshakeRejection(p) => lemma_handshake_rejection(*p),
        Packet::TrackRejectionPacket(p) => lemma_track_rejection(*p),
    }
}

} // verus!
