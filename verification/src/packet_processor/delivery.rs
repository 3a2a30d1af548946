//! What is sent arrives: the bytes that a packet goes out as are read as that packet.
use vstd::prelude::*;

use crate::manager::fields::{
    ControlType, ErrorType, HostControlType, PacketType, SessionControlType, SessionId,
    CURRENT_VERSION,
};
use crate::manager::header;
use crate::manager::packets::Packet;
use crate::manager::state::KeyView;
use crate::manager::types::Timestamp;
use crate::manager::windows;
use crate::packet_processor::encryption::{COUNTER_SIZE, MAX_PROTECTED, TAG_SIZE};
use crate::packet_processor::fingerprint;
use crate::packet_processor::fingerprint::Headers;
use crate::packet_processor::inbound;
use crate::packet_processor::outbound;
use crate::packet_processor::reading;
use crate::packet_processor::serialize::Serialize;
use crate::wire;

verus! {

/// Whether a packet says what it is: its version and its types are those that it is made
/// with.
pub open spec fn marked(packet: Packet) -> bool {
    match packet {
        Packet::HelloPacket(p) => {
            &&& p.version.0 == CURRENT_VERSION
            &&& p.writable()
            &&& p.packet_type == PacketType::Host
            &&& p.control_type == ControlType::Host(HostControlType::Hello)
        },
        Packet::HandshakeRejection(p) => {
            &&& p.version.0 == CURRENT_VERSION
            &&& p.writable()
            &&& p.packet_type == PacketType::Host
            &&& p.control_type == ControlType::Host(HostControlType::HandshakeRejection)
        },
        Packet::DataPacket(p) => {
            &&& p.version.0 == CURRENT_VERSION
            &&& p.writable()
            &&& p.packet_type == PacketType::Data
        },
        Packet::ParityPacket(p) => {
            &&& p.version.0 == CURRENT_VERSION
            &&& p.writable()
            &&& p.packet_type == PacketType::Parity
        },
        Packet::TrackRequestPacket(p) => {
            &&& p.version.0 == CURRENT_VERSION
            &&& p.writable()
            &&& p.packet_type == PacketType::Session
            &&& p.control_type == ControlType::Session(SessionControlType::TrackRequest)
        },
        Packet::TrackRejectionPacket(p) => {
            &&& p.version.0 == CURRENT_VERSION
            &&& p.writable()
            &&& p.packet_type == PacketType::Session
            &&& p.control_type == ControlType::Session(SessionControlType::TrackRejection)
        },
        Packet::AppRejectErrorPacket(p) => {
            &&& p.version.0 == CURRENT_VERSION
            &&& p.writable()
            &&& p.packet_type == PacketType::Error
            &&& p.error_type == ErrorType::AppReject
        },
        Packet::RetransmitPacket(p) => {
            &&& p.version.0 == CURRENT_VERSION
            &&& p.writable()
            &&& p.packet_type == PacketType::Session
            &&& p.control_type == ControlType::Session(SessionControlType::Retransmit)
        },
        Packet::PlaybackStatusPacket(p) => {
            &&& p.version.0 == CURRENT_VERSION
            &&& p.writable()
            &&& p.packet_type == PacketType::Playback
        },
        Packet::CloseSessionPacket(p) => {
            &&& p.version.0 == CURRENT_VERSION
            &&& p.writable()
            &&& p.packet_type == PacketType::Session
            &&& p.control_type == ControlType::Session(SessionControlType::CloseSession)
        },
        Packet::SessionDoesNotExistErrorPacket(p) => {
            &&& p.version.0 == CURRENT_VERSION
            &&& p.writable()
            &&& p.packet_type == PacketType::Error
            &&& p.error_type == ErrorType::SessionDoesNotExist
        },
        Packet::UnexpectedPacketErrorPacket(p) => {
            &&& p.version.0 == CURRENT_VERSION
            &&& p.writable()
            &&& p.packet_type == PacketType::Error
            &&& p.error_type == ErrorType::UnexpectedPacket || p.error_type == ErrorType::IncomprehensiblePacket
        },
        Packet::KeepAlivePacket(p) => {
            &&& p.version.0 == CURRENT_VERSION
            &&& p.writable()
            &&& p.packet_type == PacketType::KeepAlive
        },
        Packet::AckPacket(p) => {
            &&& p.version.0 == CURRENT_VERSION
            &&& p.writable()
            &&& p.packet_type == PacketType::Ack
        },
        Packet::HandshakeAckPacket(p) => {
            &&& p.version.0 == CURRENT_VERSION
            &&& p.writable()
            &&& p.packet_type == PacketType::HandshakeAck
        },
        _ => false,
    }
}

/// Whether a packet is control.
pub open spec fn is_control(packet: Packet) -> bool {
    match packet {
        Packet::HelloPacket(_) => true,
        Packet::HandshakeRejection(_) => true,
        Packet::TrackRequestPacket(_) => true,
        Packet::TrackRejectionPacket(_) => true,
        Packet::RetransmitPacket(_) => true,
        Packet::PlaybackStatusPacket(_) => true,
        Packet::CloseSessionPacket(_) => true,
        _ => false,
    }
}

/// Whether a packet is a complaint.
pub open spec fn is_error(packet: Packet) -> bool {
    match packet {
        Packet::AppRejectErrorPacket(_) => true,
        Packet::SessionDoesNotExistErrorPacket(_) => true,
        Packet::UnexpectedPacketErrorPacket(_) => true,
        _ => false,
    }
}

/// The bytes that a packet goes out as, if it does.
pub open spec fn went_out(packet: Packet, keys: Map<u64, KeyView>) -> Option<Seq<u8>> {
    match packet {
        Packet::ParityPacket(p) => if outbound::sealable(
            keys,
            p.session_id,
            p.head_image(),
            p.payload@,
        ) {
            Some(outbound::sealed_bytes(keys, p.session_id, p.head_image(), p.payload@))
        } else {
            None
        },
        _ => packet.wire_bytes(keys),
    }
}

/// Whether two peers have the same key for a session.
pub open spec fn same_key(
    keys0: Map<u64, KeyView>,
    keys: Map<u64, KeyView>,
    session: SessionId,
) -> bool {
    &&& keys0.dom().contains(session.0)
    &&& keys.dom().contains(session.0)
    &&& keys[session.0].key == keys0[session.0].key
}

/// Whether bytes carry a packet from a peer with the keys `keys0` to one with the keys
/// `keys` that has taken note of the fingerprints in `window`: they are what the packet goes
/// out as, the peers have the same key for its session, and it has not come before. An
/// encrypted payload is not empty, and a request for bytes names at least one range.
#[verifier::opaque]
pub open spec fn carries(
    keys0: Map<u64, KeyView>,
    keys: Map<u64, KeyView>,
    window: Seq<(Timestamp, u128)>,
    sent: Packet,
    data: Seq<u8>,
) -> bool {
    &&& marked(sent)
    &&& went_out(sent, keys0) == Some(data)
    &&& match sent {
        Packet::HelloPacket(p) => true,
        Packet::HandshakeRejection(p) => true,
        Packet::DataPacket(p) => {
            &&& same_key(keys0, keys, p.session_id)
            &&& 1 <= p.payload@.len() <= MAX_PROTECTED - TAG_SIZE - COUNTER_SIZE
            &&& data.len() == p.head_image().len() + p.payload@.len() + TAG_SIZE + COUNTER_SIZE
        },
        Packet::ParityPacket(p) => {
            &&& same_key(keys0, keys, p.session_id)
            &&& 1 <= p.payload@.len() <= MAX_PROTECTED - TAG_SIZE - COUNTER_SIZE
            &&& data.len() == p.head_image().len() + p.payload@.len() + TAG_SIZE + COUNTER_SIZE
        },
        Packet::TrackRequestPacket(p) => {
            &&& same_key(keys0, keys, p.session_id)
            &&& 1 <= p.payload@.len() <= MAX_PROTECTED - TAG_SIZE - COUNTER_SIZE
            &&& data.len() == p.head_image().len() + p.payload@.len() + TAG_SIZE + COUNTER_SIZE
            &&& !windows::queued(window, fingerprint::xxh3_128_of(p.head_image()))
        },
        Packet::TrackRejectionPacket(p) => {
            &&& same_key(keys0, keys, p.session_id)
            &&& 1 <= p.payload@.len() <= MAX_PROTECTED - TAG_SIZE - COUNTER_SIZE
            &&& data.len() == p.head_image().len() + p.payload@.len() + TAG_SIZE + COUNTER_SIZE
            &&& !windows::queued(window, fingerprint::xxh3_128_of(p.head_image()))
        },
        Packet::AppRejectErrorPacket(p) => {
            &&& same_key(keys0, keys, p.session_id)
            &&& 1 <= p.payload@.len() <= MAX_PROTECTED - TAG_SIZE - COUNTER_SIZE
            &&& data.len() == p.head_image().len() + p.payload@.len() + TAG_SIZE + COUNTER_SIZE
            &&& !windows::queued(window, fingerprint::xxh3_128_of(p.head_image()))
        },
        Packet::RetransmitPacket(p) => {
            &&& same_key(keys0, keys, p.session_id)
            &&& data.len() == p.image().len() + TAG_SIZE + COUNTER_SIZE <= MAX_PROTECTED
            &&& !windows::queued(window, fingerprint::xxh3_128_of(p.head_image()))
        },
        Packet::PlaybackStatusPacket(p) => {
            &&& same_key(keys0, keys, p.session_id)
            &&& data.len() == p.image().len() + TAG_SIZE + COUNTER_SIZE <= MAX_PROTECTED
            &&& !windows::queued(window, fingerprint::xxh3_128_of(p.image()))
        },
        Packet::CloseSessionPacket(p) => {
            &&& same_key(keys0, keys, p.session_id)
            &&& data.len() == p.image().len() + TAG_SIZE + COUNTER_SIZE <= MAX_PROTECTED
            &&& !windows::queued(window, fingerprint::xxh3_128_of(p.image()))
        },
        Packet::SessionDoesNotExistErrorPacket(p) => {
            &&& same_key(keys0, keys, p.session_id)
            &&& data.len() == p.image().len() + TAG_SIZE + COUNTER_SIZE <= MAX_PROTECTED
            &&& !windows::queued(window, fingerprint::xxh3_128_of(p.image()))
        },
        Packet::UnexpectedPacketErrorPacket(p) => {
            &&& same_key(keys0, keys, p.session_id)
            &&& data.len() == p.image().len() + TAG_SIZE + COUNTER_SIZE <= MAX_PROTECTED
            &&& !windows::queued(window, fingerprint::xxh3_128_of(p.image()))
        },
        Packet::KeepAlivePacket(p) => {
            &&& same_key(keys0, keys, p.session_id)
            &&& data.len() == p.image().len() + TAG_SIZE + COUNTER_SIZE <= MAX_PROTECTED
            &&& !windows::queued(window, fingerprint::xxh3_128_of(p.image()))
        },
        Packet::AckPacket(p) => {
            &&& same_key(keys0, keys, p.session_id)
            &&& data.len() == p.image().len() + TAG_SIZE + COUNTER_SIZE <= MAX_PROTECTED
        },
        Packet::HandshakeAckPacket(p) => true,
        _ => false,
    }
}

/// Whether a packet came out of what bytes carry.
pub open spec fn arrived(sent: Packet, r: Option<Packet>) -> bool {
    r matches Some(p) && p@ == sent@
}

/// Whether bytes show what a packet is: its version, its types and its session.
pub open spec fn shows(sent: Packet, data: Seq<u8>) -> bool {
    &&& data.len() >= 18
    &&& wire::rd16(data, 0) == CURRENT_VERSION
    &&& match sent {
        Packet::HelloPacket(p) => {
            &&& PacketType::of_code(data[4]) == Some(p.packet_type)
            &&& ControlType::of_code(data[5]) == Some(p.control_type)
        },
        Packet::HandshakeRejection(p) => {
            &&& PacketType::of_code(data[4]) == Some(p.packet_type)
            &&& ControlType::of_code(data[5]) == Some(p.control_type)
            &&& reading::session_at(data, 8) == p.session_id
        },
        Packet::DataPacket(p) => {
            &&& PacketType::of_code(data[4]) == Some(p.packet_type)
            &&& reading::session_at(data, 10) == p.session_id
        },
        Packet::ParityPacket(p) => {
            &&& PacketType::of_code(data[4]) == Some(p.packet_type)
            &&& reading::session_at(data, 10) == p.session_id
        },
        Packet::TrackRequestPacket(p) => {
            &&& PacketType::of_code(data[4]) == Some(p.packet_type)
            &&& ControlType::of_code(data[5]) == Some(p.control_type)
            &&& reading::session_at(data, 8) == p.session_id
        },
        Packet::TrackRejectionPacket(p) => {
            &&& PacketType::of_code(data[4]) == Some(p.packet_type)
            &&& ControlType::of_code(data[5]) == Some(p.control_type)
            &&& reading::session_at(data, 8) == p.session_id
        },
        Packet::AppRejectErrorPacket(p) => {
            &&& PacketType::of_code(data[4]) == Some(p.packet_type)
            &&& ErrorType::of_code(data[5]) == Some(p.error_type)
            &&& reading::session_at(data, 8) == p.session_id
        },
        Packet::RetransmitPacket(p) => {
            &&& PacketType::of_code(data[4]) == Some(p.packet_type)
            &&& ControlType::of_code(data[5]) == Some(p.control_type)
            &&& reading::session_at(data, 8) == p.session_id
        },
        Packet::PlaybackStatusPacket(p) => {
            &&& PacketType::of_code(data[4]) == Some(p.packet_type)
            &&& ControlType::of_code(data[5]) == Some(ControlType::Playback(p.control_type))
            &&& reading::session_at(data, 8) == p.session_id
        },
        Packet::CloseSessionPacket(p) => {
            &&& PacketType::of_code(data[4]) == Some(p.packet_type)
            &&& ControlType::of_code(data[5]) == Some(p.control_type)
            &&& reading::session_at(data, 8) == p.session_id
        },
        Packet::SessionDoesNotExistErrorPacket(p) => {
            &&& PacketType::of_code(data[4]) == Some(p.packet_type)
            &&& ErrorType::of_code(data[5]) == Some(p.error_type)
            &&& reading::session_at(data, 8) == p.session_id
        },
        Packet::UnexpectedPacketErrorPacket(p) => {
            &&& PacketType::of_code(data[4]) == Some(p.packet_type)
            &&& ErrorType::of_code(data[5]) == Some(p.error_type)
            &&& reading::session_at(data, 8) == p.session_id
        },
        Packet::KeepAlivePacket(p) => {
            &&& PacketType::of_code(data[4]) == Some(p.packet_type)
            &&& reading::session_at(data, 8) == p.session_id
        },
        Packet::AckPacket(p) => {
            &&& PacketType::of_code(data[4]) == Some(p.packet_type)
            &&& reading::session_at(data, 8) == p.session_id
        },
        Packet::HandshakeAckPacket(p) => {
            &&& PacketType::of_code(data[4]) == Some(p.packet_type)
            &&& reading::session_at(data, 8) == p.session_id
        },
        _ => false,
    }
}

proof fn lemma_prefix(a: Seq<u8>, b: Seq<u8>)
    requires
        a.len() >= 24,
        b.len() >= 24,
        a.take(24) == b.take(24),
    ensures
        wire::rd16(a, 0) == wire::rd16(b, 0),
        a[4] == b[4],
        a[5] == b[5],
        wire::rd64(a, 8) == wire::rd64(b, 8),
        wire::rd64(a, 10) == wire::rd64(b, 10),
{
    assert forall|k: int| 0 <= k < 24 implies a[k] == b[k] by {
        assert(a.take(24)[k] == a[k] && b.take(24)[k] == b[k]);
    }
}

proof fn lemma_tagged_prefix(keys: Map<u64, KeyView>, session: SessionId, image: Seq<u8>)
    requires
        image.len() >= 24,
    ensures
        outbound::tagged_bytes(keys, session, image).len() >= 24,
        outbound::tagged_bytes(keys, session, image).take(24) == image.take(24),
{
    assert(outbound::tagged_bytes(keys, session, image).take(24) =~= image.take(24));
}

#[verifier::rlimit(40)]
proof fn lemma_shows_hello_packet(
    p: crate::manager::packets::HelloPacket,
    keys0: Map<u64, KeyView>,
    data: Seq<u8>,
)
    requires
        marked(Packet::HelloPacket(Box::new(p))),
        went_out(Packet::HelloPacket(Box::new(p)), keys0) == Some(data),
    ensures
        shows(Packet::HelloPacket(Box::new(p)), data),
{
    p.image_decodes();
    let image = p.image();
    let head = p.head_image();
    assert(head.len() >= 24);
    assert(data.take(24) =~= image.take(24));
    lemma_prefix(data, image);
}

#[verifier::rlimit(40)]
proof fn lemma_shows_handshake_rejection(
    p: crate::manager::packets::HandshakeRejection,
    keys0: Map<u64, KeyView>,
    data: Seq<u8>,
)
    requires
        marked(Packet::HandshakeRejection(Box::new(p))),
        went_out(Packet::HandshakeRejection(Box::new(p)), keys0) == Some(data),
    ensures
        shows(Packet::HandshakeRejection(Box::new(p)), data),
{
    p.image_decodes();
    let image = p.image();
    let head = p.head_image();
    assert(head.len() >= 24);
    assert(data.take(24) =~= image.take(24));
    lemma_prefix(data, image);
}

#[verifier::rlimit(40)]
proof fn lemma_shows_data_packet(
    p: crate::manager::packets::DataPacket,
    keys0: Map<u64, KeyView>,
    data: Seq<u8>,
)
    requires
        marked(Packet::DataPacket(Box::new(p))),
        went_out(Packet::DataPacket(Box::new(p)), keys0) == Some(data),
    ensures
        shows(Packet::DataPacket(Box::new(p)), data),
{
    p.image_decodes();
    let image = p.image();
    let head = p.head_image();
    assert(head.len() >= 24);
    assert(data.take(24) =~= image.take(24));
    lemma_prefix(data, image);
}

#[verifier::rlimit(40)]
proof fn lemma_shows_parity_packet(
    p: crate::manager::packets::ParityPacket,
    keys0: Map<u64, KeyView>,
    data: Seq<u8>,
)
    requires
        marked(Packet::ParityPacket(Box::new(p))),
        went_out(Packet::ParityPacket(Box::new(p)), keys0) == Some(data),
    ensures
        shows(Packet::ParityPacket(Box::new(p)), data),
{
    p.image_decodes();
    let image = p.image();
    let head = p.head_image();
    assert(head.len() >= 24);
    assert(data.take(24) =~= image.take(24));
    lemma_prefix(data, image);
}

#[verifier::rlimit(40)]
proof fn lemma_shows_track_request_packet(
    p: crate::manager::packets::TrackRequestPacket,
    keys0: Map<u64, KeyView>,
    data: Seq<u8>,
)
    requires
        marked(Packet::TrackRequestPacket(Box::new(p))),
        went_out(Packet::TrackRequestPacket(Box::new(p)), keys0) == Some(data),
    ensures
        shows(Packet::TrackRequestPacket(Box::new(p)), data),
{
    p.image_decodes();
    let image = p.image();
    let head = p.head_image();
    assert(head.len() >= 24);
    assert(data.take(24) =~= image.take(24));
    lemma_prefix(data, image);
}

#[verifier::rlimit(40)]
proof fn lemma_shows_track_rejection_packet(
    p: crate::manager::packets::TrackRejectionPacket,
    keys0: Map<u64, KeyView>,
    data: Seq<u8>,
)
    requires
        marked(Packet::TrackRejectionPacket(Box::new(p))),
        went_out(Packet::TrackRejectionPacket(Box::new(p)), keys0) == Some(data),
    ensures
        shows(Packet::TrackRejectionPacket(Box::new(p)), data),
{
    p.image_decodes();
    let image = p.image();
    let head = p.head_image();
    assert(head.len() >= 24);
    assert(data.take(24) =~= image.take(24));
    lemma_prefix(data, image);
}

#[verifier::rlimit(40)]
proof fn lemma_shows_app_reject_error_packet(
    p: crate::manager::packets::AppRejectErrorPacket,
    keys0: Map<u64, KeyView>,
    data: Seq<u8>,
)
    requires
        marked(Packet::AppRejectErrorPacket(Box::new(p))),
        went_out(Packet::AppRejectErrorPacket(Box::new(p)), keys0) == Some(data),
    ensures
        shows(Packet::AppRejectErrorPacket(Box::new(p)), data),
{
    p.image_decodes();
    let image = p.image();
    let head = p.head_image();
    assert(head.len() >= 24);
    assert(data.take(24) =~= image.take(24));
    lemma_prefix(data, image);
}

#[verifier::rlimit(40)]
proof fn lemma_retransmit_image(p: crate::manager::packets::RetransmitPacket)
    requires
        p.writable(),
    ensures
        p.image().len() >= 24,
        p.version.0 == wire::rd16(p.image(), 0),
        PacketType::of_code(p.image()[4]) == Some(p.packet_type),
        ControlType::of_code(p.image()[5]) == Some(p.control_type),
        p.session_id.0 == wire::rd64(p.image(), 8),
{
    p.image_decodes();
}

proof fn lemma_shows_retransmit_packet(
    p: crate::manager::packets::RetransmitPacket,
    keys0: Map<u64, KeyView>,
    data: Seq<u8>,
)
    requires
        marked(Packet::RetransmitPacket(Box::new(p))),
        went_out(Packet::RetransmitPacket(Box::new(p)), keys0) == Some(data),
    ensures
        shows(Packet::RetransmitPacket(Box::new(p)), data),
{
    lemma_retransmit_image(p);
    let image = p.image();
    lemma_tagged_prefix(keys0, p.session_id, image);
    assert(data == outbound::tagged_bytes(keys0, p.session_id, image));
    lemma_prefix(data, image);
}

#[verifier::rlimit(40)]
proof fn lemma_shows_playback_status_packet(
    p: crate::manager::packets::PlaybackStatusPacket,
    keys0: Map<u64, KeyView>,
    data: Seq<u8>,
)
    requires
        marked(Packet::PlaybackStatusPacket(Box::new(p))),
        went_out(Packet::PlaybackStatusPacket(Box::new(p)), keys0) == Some(data),
    ensures
        shows(Packet::PlaybackStatusPacket(Box::new(p)), data),
{
    p.image_decodes();
    let image = p.image();
    let head = p.head_image();
    assert(head.len() >= 24);
    assert(data.take(24) =~= image.take(24));
    lemma_prefix(data, image);
}

#[verifier::rlimit(40)]
proof fn lemma_shows_close_session_packet(
    p: crate::manager::packets::CloseSessionPacket,
    keys0: Map<u64, KeyView>,
    data: Seq<u8>,
)
    requires
        marked(Packet::CloseSessionPacket(Box::new(p))),
        went_out(Packet::CloseSessionPacket(Box::new(p)), keys0) == Some(data),
    ensures
        shows(Packet::CloseSessionPacket(Box::new(p)), data),
{
    p.image_decodes();
    let image = p.image();
    let head = p.head_image();
    assert(head.len() >= 24);
    assert(data.take(24) =~= image.take(24));
    lemma_prefix(data, image);
}

#[verifier::rlimit(40)]
proof fn lemma_shows_session_does_not_exist_error_packet(
    p: crate::manager::packets::SessionDoesNotExistErrorPacket,
    keys0: Map<u64, KeyView>,
    data: Seq<u8>,
)
    requires
        marked(Packet::SessionDoesNotExistErrorPacket(Box::new(p))),
        went_out(Packet::SessionDoesNotExistErrorPacket(Box::new(p)), keys0) == Some(data),
    ensures
        shows(Packet::SessionDoesNotExistErrorPacket(Box::new(p)), data),
{
    p.image_decodes();
    let image = p.image();
    let head = p.head_image();
    assert(head.len() >= 24);
    assert(data.take(24) =~= image.take(24));
    lemma_prefix(data, image);
}

#[verifier::rlimit(40)]
proof fn lemma_shows_unexpected_packet_error_packet(
    p: crate::manager::packets::UnexpectedPacketErrorPacket,
    keys0: Map<u64, KeyView>,
    data: Seq<u8>,
)
    requires
        marked(Packet::UnexpectedPacketErrorPacket(Box::new(p))),
        went_out(Packet::UnexpectedPacketErrorPacket(Box::new(p)), keys0) == Some(data),
    ensures
        shows(Packet::UnexpectedPacketErrorPacket(Box::new(p)), data),
{
    p.image_decodes();
    let image = p.image();
    let head = p.head_image();
    assert(head.len() >= 24);
    assert(data.take(24) =~= image.take(24));
    lemma_prefix(data, image);
}

#[verifier::rlimit(40)]
proof fn lemma_shows_keep_alive_packet(
    p: crate::manager::packets::KeepAlivePacket,
    keys0: Map<u64, KeyView>,
    data: Seq<u8>,
)
    requires
        marked(Packet::KeepAlivePacket(Box::new(p))),
        went_out(Packet::KeepAlivePacket(Box::new(p)), keys0) == Some(data),
    ensures
        shows(Packet::KeepAlivePacket(Box::new(p)), data),
{
    p.image_decodes();
    let image = p.image();
    let head = p.head_image();
    assert(head.len() >= 24);
    assert(data.take(24) =~= image.take(24));
    lemma_prefix(data, image);
}

#[verifier::rlimit(40)]
proof fn lemma_shows_ack_packet(
    p: crate::manager::packets::AckPacket,
    keys0: Map<u64, KeyView>,
    data: Seq<u8>,
)
    requires
        marked(Packet::AckPacket(Box::new(p))),
        went_out(Packet::AckPacket(Box::new(p)), keys0) == Some(data),
    ensures
        shows(Packet::AckPacket(Box::new(p)), data),
{
    p.image_decodes();
    let image = p.image();
    let head = p.head_image();
    assert(head.len() >= 24);
    assert(data.take(24) =~= image.take(24));
    lemma_prefix(data, image);
}

#[verifier::rlimit(40)]
proof fn lemma_shows_handshake_ack_packet(
    p: crate::manager::packets::HandshakeAckPacket,
    keys0: Map<u64, KeyView>,
    data: Seq<u8>,
)
    requires
        marked(Packet::HandshakeAckPacket(Box::new(p))),
        went_out(Packet::HandshakeAckPacket(Box::new(p)), keys0) == Some(data),
    ensures
        shows(Packet::HandshakeAckPacket(Box::new(p)), data),
{
    p.image_decodes();
    let image = p.image();
    let head = p.head_image();
    assert(head.len() >= 24);
    assert(data.take(24) =~= image.take(24));
    lemma_prefix(data, image);
}

/// Bytes that carry a packet show what it is.
pub proof fn lemma_shows(
    keys0: Map<u64, KeyView>,
    keys: Map<u64, KeyView>,
    window: Seq<(Timestamp, u128)>,
    sent: Packet,
    data: Seq<u8>,
)
    requires
        carries(keys0, keys, window, sent, data),
    ensures
        shows(sent, data),
{
    reveal(carries);
    match sent {
        Packet::HelloPacket(p) => lemma_shows_hello_packet(*p, keys0, data),
        Packet::HandshakeRejection(p) => lemma_shows_handshake_rejection(*p, keys0, data),
        Packet::DataPacket(p) => lemma_shows_data_packet(*p, keys0, data),
        Packet::ParityPacket(p) => lemma_shows_parity_packet(*p, keys0, data),
        Packet::TrackRequestPacket(p) => lemma_shows_track_request_packet(*p, keys0, data),
        Packet::TrackRejectionPacket(p) => lemma_shows_track_rejection_packet(*p, keys0, data),
        Packet::AppRejectErrorPacket(p) => lemma_shows_app_reject_error_packet(*p, keys0, data),
        Packet::RetransmitPacket(p) => lemma_shows_retransmit_packet(*p, keys0, data),
        Packet::PlaybackStatusPacket(p) => lemma_shows_playback_status_packet(*p, keys0, data),
        Packet::CloseSessionPacket(p) => lemma_shows_close_session_packet(*p, keys0, data),
        Packet::SessionDoesNotExistErrorPacket(p) => lemma_shows_session_does_not_exist_error_packet(*p, keys0, data),
        Packet::UnexpectedPacketErrorPacket(p) => lemma_shows_unexpected_packet_error_packet(*p, keys0, data),
        Packet::KeepAlivePacket(p) => lemma_shows_keep_alive_packet(*p, keys0, data),
        Packet::AckPacket(p) => lemma_shows_ack_packet(*p, keys0, data),
        Packet::HandshakeAckPacket(p) => lemma_shows_handshake_ack_packet(*p, keys0, data),
        _ => {},
    }
}

#[verifier::rlimit(40)]
proof fn lemma_ack(p: crate::manager::packets::AckPacket, data: Seq<u8>)
    requires
        data.len() >= p.image().len(),
        data.take(p.image().len() as int) == p.image(),
    ensures
        data.len() >= 40,
        p.decoded_from(data),
{
    let image = p.image();
    assert(image.len() == 40);
    let t = data.take(40);
    assert(data.subrange(0, 24) =~= t.subrange(0, 24));
    assert(image.subrange(0, 24) =~= header::control_image(
        p.version.0,
        p.opts.0,
        p.packet_type.code(),
        0,
        0,
        p.session_id.0,
        p.timestamp.0,
    ));
    header::lemma_control(
        data,
        p.version.0,
        p.opts.0,
        p.packet_type.code(),
        0,
        0,
        p.session_id.0,
        p.timestamp.0,
    );
    assert(data.subrange(24, 40) =~= t.subrange(24, 40));
    assert(image.subrange(24, 40) =~= wire::be128(p.fingerprint.0));
    wire::lemma_rd128(data, 24, p.fingerprint.0);
}

/// A packet that is carried says what it is.
pub proof fn lemma_carries_marked(
    keys0: Map<u64, KeyView>,
    keys: Map<u64, KeyView>,
    window: Seq<(Timestamp, u128)>,
    sent: Packet,
    data: Seq<u8>,
)
    requires
        carries(keys0, keys, window, sent, data),
    ensures
        marked(sent),
{
    reveal(carries);
}

/// Bytes of this type that carry a packet carry a [`Packet::HelloPacket`].
#[verifier::rlimit(100)]
pub proof fn carried_hello_packet(
    keys0: Map<u64, KeyView>,
    keys: Map<u64, KeyView>,
    window: Seq<(Timestamp, u128)>,
    sent: Packet,
    data: Seq<u8>,
)
    requires
        carries(keys0, keys, window, sent, data),
        is_control(sent),
        ControlType::of_code(data[5]) == Some(ControlType::Host(HostControlType::Hello)),
    ensures
        sent matches Packet::HelloPacket(q) && {
            &&& q.writable()
            &&& data == q.image()
        },
{
    lemma_shows(keys0, keys, window, sent, data);
    reveal(carries);
}

/// Two packets that are read from the same bytes are the same.
pub proof fn alike_hello_packet(
    a: crate::manager::packets::HelloPacket,
    b: crate::manager::packets::HelloPacket,
    bytes: Seq<u8>,
)
    requires
        a.decoded_from(bytes),
        b.decoded_from(bytes),
    ensures
        a@ == b@,
{
}

/// Bytes of this type that carry a packet carry a [`Packet::HandshakeRejection`].
#[verifier::rlimit(100)]
pub proof fn carried_handshake_rejection(
    keys0: Map<u64, KeyView>,
    keys: Map<u64, KeyView>,
    window: Seq<(Timestamp, u128)>,
    sent: Packet,
    data: Seq<u8>,
)
    requires
        carries(keys0, keys, window, sent, data),
        is_control(sent),
        ControlType::of_code(data[5]) == Some(
            ControlType::Host(HostControlType::HandshakeRejection),
        ),
    ensures
        sent matches Packet::HandshakeRejection(q) && {
            &&& q.writable()
            &&& data == q.image()
        },
{
    lemma_shows(keys0, keys, window, sent, data);
    reveal(carries);
}

/// Two packets that are read from the same bytes are the same.
pub proof fn alike_handshake_rejection(
    a: crate::manager::packets::HandshakeRejection,
    b: crate::manager::packets::HandshakeRejection,
    bytes: Seq<u8>,
)
    requires
        a.decoded_from(bytes),
        b.decoded_from(bytes),
    ensures
        a@ == b@,
{
}

/// Bytes of this type that carry a packet carry a [`Packet::DataPacket`].
#[verifier::rlimit(100)]
pub proof fn carried_data_packet(
    keys0: Map<u64, KeyView>,
    keys: Map<u64, KeyView>,
    window: Seq<(Timestamp, u128)>,
    sent: Packet,
    data: Seq<u8>,
)
    requires
        carries(keys0, keys, window, sent, data),
        PacketType::of_code(data[4]) == Some(PacketType::Data),
    ensures
        sent matches Packet::DataPacket(q) && {
            &&& reading::session_at(data, 10) == q.session_id
            &&& keys.dom().contains(q.session_id.0)
            &&& inbound::seals(
                keys[q.session_id.0].key,
                q.session_id,
                wire::be64(keys0[q.session_id.0].counter),
                *q,
                data,
            )
        },
{
    lemma_shows(keys0, keys, window, sent, data);
    reveal(carries);
}

/// Bytes of this type that carry a packet carry a [`Packet::ParityPacket`].
#[verifier::rlimit(100)]
pub proof fn carried_parity_packet(
    keys0: Map<u64, KeyView>,
    keys: Map<u64, KeyView>,
    window: Seq<(Timestamp, u128)>,
    sent: Packet,
    data: Seq<u8>,
)
    requires
        carries(keys0, keys, window, sent, data),
        PacketType::of_code(data[4]) == Some(PacketType::Parity),
    ensures
        sent matches Packet::ParityPacket(q) && {
            &&& reading::session_at(data, 10) == q.session_id
            &&& keys.dom().contains(q.session_id.0)
            &&& inbound::seals(
                keys[q.session_id.0].key,
                q.session_id,
                wire::be64(keys0[q.session_id.0].counter),
                *q,
                data,
            )
        },
{
    lemma_shows(keys0, keys, window, sent, data);
    reveal(carries);
}

/// Bytes of this type that carry a packet carry a [`Packet::TrackRequestPacket`].
#[verifier::rlimit(100)]
pub proof fn carried_track_request_packet(
    keys0: Map<u64, KeyView>,
    keys: Map<u64, KeyView>,
    window: Seq<(Timestamp, u128)>,
    sent: Packet,
    data: Seq<u8>,
)
    requires
        carries(keys0, keys, window, sent, data),
        is_control(sent),
        ControlType::of_code(data[5]) == Some(
            ControlType::Session(SessionControlType::TrackRequest),
        ),
    ensures
        sent matches Packet::TrackRequestPacket(q) && {
            &&& reading::session_at(data, 8) == q.session_id
            &&& keys.dom().contains(q.session_id.0)
            &&& inbound::seals(
                keys[q.session_id.0].key,
                q.session_id,
                wire::be64(keys0[q.session_id.0].counter),
                *q,
                data,
            )
            &&& !windows::queued(window, fingerprint::xxh3_128_of(q.head_image()))
        },
{
    lemma_shows(keys0, keys, window, sent, data);
    reveal(carries);
}

/// Bytes of this type that carry a packet carry a [`Packet::TrackRejectionPacket`].
#[verifier::rlimit(100)]
pub proof fn carried_track_rejection_packet(
    keys0: Map<u64, KeyView>,
    keys: Map<u64, KeyView>,
    window: Seq<(Timestamp, u128)>,
    sent: Packet,
    data: Seq<u8>,
)
    requires
        carries(keys0, keys, window, sent, data),
        is_control(sent),
        ControlType::of_code(data[5]) == Some(
            ControlType::Session(SessionControlType::TrackRejection),
        ),
    ensures
        sent matches Packet::TrackRejectionPacket(q) && {
            &&& reading::session_at(data, 8) == q.session_id
            &&& keys.dom().contains(q.session_id.0)
            &&& inbound::seals(
                keys[q.session_id.0].key,
                q.session_id,
                wire::be64(keys0[q.session_id.0].counter),
                *q,
                data,
            )
            &&& !windows::queued(window, fingerprint::xxh3_128_of(q.head_image()))
        },
{
    lemma_shows(keys0, keys, window, sent, data);
    reveal(carries);
}

/// Bytes of this type that carry a packet carry a [`Packet::AppRejectErrorPacket`].
#[verifier::rlimit(100)]
pub proof fn carried_app_reject_error_packet(
    keys0: Map<u64, KeyView>,
    keys: Map<u64, KeyView>,
    window: Seq<(Timestamp, u128)>,
    sent: Packet,
    data: Seq<u8>,
)
    requires
        carries(keys0, keys, window, sent, data),
        is_error(sent),
        ErrorType::of_code(data[5]) == Some(ErrorType::AppReject),
    ensures
        sent matches Packet::AppRejectErrorPacket(q) && {
            &&& reading::session_at(data, 8) == q.session_id
            &&& keys.dom().contains(q.session_id.0)
            &&& inbound::seals(
                keys[q.session_id.0].key,
                q.session_id,
                wire::be64(keys0[q.session_id.0].counter),
                *q,
                data,
            )
            &&& !windows::queued(window, fingerprint::xxh3_128_of(q.head_image()))
        },
{
    lemma_shows(keys0, keys, window, sent, data);
    reveal(carries);
}

/// Bytes of this type that carry a packet carry a [`Packet::RetransmitPacket`].
#[verifier::rlimit(100)]
pub proof fn carried_retransmit_packet(
    keys0: Map<u64, KeyView>,
    keys: Map<u64, KeyView>,
    window: Seq<(Timestamp, u128)>,
    sent: Packet,
    data: Seq<u8>,
)
    requires
        carries(keys0, keys, window, sent, data),
        is_control(sent),
        ControlType::of_code(data[5]) == Some(
            ControlType::Session(SessionControlType::Retransmit),
        ),
    ensures
        sent matches Packet::RetransmitPacket(q) && {
            &&& reading::session_at(data, 8) == q.session_id
            &&& keys.dom().contains(q.session_id.0)
            &&& q.writable()
            &&& inbound::tags(
                keys[q.session_id.0].key,
                q.session_id,
                wire::be64(keys0[q.session_id.0].counter),
                q.image(),
                data,
            )
            &&& !windows::queued(window, fingerprint::xxh3_128_of(q.head_image()))
        },
{
    lemma_shows(keys0, keys, window, sent, data);
    reveal(carries);
}

/// Two packets that are read from the same bytes are the same.
pub proof fn alike_retransmit_packet(
    a: crate::manager::packets::RetransmitPacket,
    b: crate::manager::packets::RetransmitPacket,
    bytes: Seq<u8>,
)
    requires
        a.decoded_from(bytes),
        b.decoded_from(bytes),
    ensures
        a@ == b@,
{
}

/// Bytes of this type that carry a packet carry a [`Packet::PlaybackStatusPacket`].
#[verifier::rlimit(100)]
pub proof fn carried_playback_status_packet(
    keys0: Map<u64, KeyView>,
    keys: Map<u64, KeyView>,
    window: Seq<(Timestamp, u128)>,
    sent: Packet,
    data: Seq<u8>,
)
    requires
        carries(keys0, keys, window, sent, data),
        is_control(sent),
        ControlType::of_code(data[5]) matches Some(ControlType::Playback(_)),
    ensures
        sent matches Packet::PlaybackStatusPacket(q) && {
            &&& reading::session_at(data, 8) == q.session_id
            &&& keys.dom().contains(q.session_id.0)
            &&& q.writable()
            &&& inbound::tags(
                keys[q.session_id.0].key,
                q.session_id,
                wire::be64(keys0[q.session_id.0].counter),
                q.image(),
                data,
            )
            &&& !windows::queued(window, fingerprint::xxh3_128_of(q.image()))
        },
{
    lemma_shows(keys0, keys, window, sent, data);
    reveal(carries);
}

/// Two packets that are read from the same bytes are the same.
pub proof fn alike_playback_status_packet(
    a: crate::manager::packets::PlaybackStatusPacket,
    b: crate::manager::packets::PlaybackStatusPacket,
    bytes: Seq<u8>,
)
    requires
        a.decoded_from(bytes),
        b.decoded_from(bytes),
    ensures
        a == b,
{
}

/// Bytes of this type that carry a packet carry a [`Packet::CloseSessionPacket`].
#[verifier::rlimit(100)]
pub proof fn carried_close_session_packet(
    keys0: Map<u64, KeyView>,
    keys: Map<u64, KeyView>,
    window: Seq<(Timestamp, u128)>,
    sent: Packet,
    data: Seq<u8>,
)
    requires
        carries(keys0, keys, window, sent, data),
        is_control(sent),
        ControlType::of_code(data[5]) == Some(
            ControlType::Session(SessionControlType::CloseSession),
        ),
    ensures
        sent matches Packet::CloseSessionPacket(q) && {
            &&& reading::session_at(data, 8) == q.session_id
            &&& keys.dom().contains(q.session_id.0)
            &&& q.writable()
            &&& inbound::tags(
                keys[q.session_id.0].key,
                q.session_id,
                wire::be64(keys0[q.session_id.0].counter),
                q.image(),
                data,
            )
            &&& !windows::queued(window, fingerprint::xxh3_128_of(q.image()))
        },
{
    lemma_shows(keys0, keys, window, sent, data);
    reveal(carries);
}

/// Two packets that are read from the same bytes are the same.
pub proof fn alike_close_session_packet(
    a: crate::manager::packets::CloseSessionPacket,
    b: crate::manager::packets::CloseSessionPacket,
    bytes: Seq<u8>,
)
    requires
        a.decoded_from(bytes),
        b.decoded_from(bytes),
    ensures
        a == b,
{
}

/// Bytes of this type that carry a packet carry a [`Packet::SessionDoesNotExistErrorPacket`].
#[verifier::rlimit(100)]
pub proof fn carried_session_does_not_exist_error_packet(
    keys0: Map<u64, KeyView>,
    keys: Map<u64, KeyView>,
    window: Seq<(Timestamp, u128)>,
    sent: Packet,
    data: Seq<u8>,
)
    requires
        carries(keys0, keys, window, sent, data),
        is_error(sent),
        ErrorType::of_code(data[5]) == Some(ErrorType::SessionDoesNotExist),
    ensures
        sent matches Packet::SessionDoesNotExistErrorPacket(q) && {
            &&& reading::session_at(data, 8) == q.session_id
            &&& keys.dom().contains(q.session_id.0)
            &&& q.writable()
            &&& inbound::tags(
                keys[q.session_id.0].key,
                q.session_id,
                wire::be64(keys0[q.session_id.0].counter),
                q.image(),
                data,
            )
            &&& !windows::queued(window, fingerprint::xxh3_128_of(q.image()))
        },
{
    lemma_shows(keys0, keys, window, sent, data);
    reveal(carries);
}

/// Two packets that are read from the same bytes are the same.
pub proof fn alike_session_does_not_exist_error_packet(
    a: crate::manager::packets::SessionDoesNotExistErrorPacket,
    b: crate::manager::packets::SessionDoesNotExistErrorPacket,
    bytes: Seq<u8>,
)
    requires
        a.decoded_from(bytes),
        b.decoded_from(bytes),
    ensures
        a == b,
{
}

/// Bytes of this type that carry a packet carry a [`Packet::UnexpectedPacketErrorPacket`].
#[verifier::rlimit(100)]
pub proof fn carried_unexpected_packet_error_packet(
    keys0: Map<u64, KeyView>,
    keys: Map<u64, KeyView>,
    window: Seq<(Timestamp, u128)>,
    sent: Packet,
    data: Seq<u8>,
)
    requires
        carries(keys0, keys, window, sent, data),
        is_error(sent),
        ErrorType::of_code(data[5]) == Some(ErrorType::UnexpectedPacket) || ErrorType::of_code(
            data[5],
        ) == Some(ErrorType::IncomprehensiblePacket),
    ensures
        sent matches Packet::UnexpectedPacketErrorPacket(q) && {
            &&& reading::session_at(data, 8) == q.session_id
            &&& keys.dom().contains(q.session_id.0)
            &&& q.writable()
            &&& inbound::tags(
                keys[q.session_id.0].key,
                q.session_id,
                wire::be64(keys0[q.session_id.0].counter),
                q.image(),
                data,
            )
            &&& !windows::queued(window, fingerprint::xxh3_128_of(q.image()))
        },
{
    lemma_shows(keys0, keys, window, sent, data);
    reveal(carries);
}

/// Two packets that are read from the same bytes are the same.
pub proof fn alike_unexpected_packet_error_packet(
    a: crate::manager::packets::UnexpectedPacketErrorPacket,
    b: crate::manager::packets::UnexpectedPacketErrorPacket,
    bytes: Seq<u8>,
)
    requires
        a.decoded_from(bytes),
        b.decoded_from(bytes),
    ensures
        a == b,
{
}

/// Bytes of this type that carry a packet carry a [`Packet::KeepAlivePacket`].
#[verifier::rlimit(100)]
pub proof fn carried_keep_alive_packet(
    keys0: Map<u64, KeyView>,
    keys: Map<u64, KeyView>,
    window: Seq<(Timestamp, u128)>,
    sent: Packet,
    data: Seq<u8>,
)
    requires
        carries(keys0, keys, window, sent, data),
        PacketType::of_code(data[4]) == Some(PacketType::KeepAlive),
    ensures
        sent matches Packet::KeepAlivePacket(q) && {
            &&& reading::session_at(data, 8) == q.session_id
            &&& keys.dom().contains(q.session_id.0)
            &&& q.writable()
            &&& inbound::tags(
                keys[q.session_id.0].key,
                q.session_id,
                wire::be64(keys0[q.session_id.0].counter),
                q.image(),
                data,
            )
            &&& !windows::queued(window, fingerprint::xxh3_128_of(q.image()))
        },
{
    lemma_shows(keys0, keys, window, sent, data);
    reveal(carries);
}

/// Two packets that are read from the same bytes are the same.
pub proof fn alike_keep_alive_packet(
    a: crate::manager::packets::KeepAlivePacket,
    b: crate::manager::packets::KeepAlivePacket,
    bytes: Seq<u8>,
)
    requires
        a.decoded_from(bytes),
        b.decoded_from(bytes),
    ensures
        a == b,
{
}

/// Bytes of this type that carry a packet carry a [`Packet::AckPacket`].
#[verifier::rlimit(100)]
pub proof fn carried_ack_packet(
    keys0: Map<u64, KeyView>,
    keys: Map<u64, KeyView>,
    window: Seq<(Timestamp, u128)>,
    sent: Packet,
    data: Seq<u8>,
)
    requires
        carries(keys0, keys, window, sent, data),
        PacketType::of_code(data[4]) == Some(PacketType::Ack),
    ensures
        sent matches Packet::AckPacket(q) && {
            &&& data.len() >= 40
            &&& q.decoded_from(data)
        },
{
    lemma_shows(keys0, keys, window, sent, data);
    reveal(carries);
    if let Packet::AckPacket(p) = sent {
        assert(data.take(p.image().len() as int) =~= p.image());
        lemma_ack(*p, data);
    }
}

/// Two packets that are read from the same bytes are the same.
pub proof fn alike_ack_packet(
    a: crate::manager::packets::AckPacket,
    b: crate::manager::packets::AckPacket,
    bytes: Seq<u8>,
)
    requires
        a.decoded_from(bytes),
        b.decoded_from(bytes),
    ensures
        a == b,
{
}

/// Bytes of this type that carry a packet carry a [`Packet::HandshakeAckPacket`].
#[verifier::rlimit(100)]
pub proof fn carried_handshake_ack_packet(
    keys0: Map<u64, KeyView>,
    keys: Map<u64, KeyView>,
    window: Seq<(Timestamp, u128)>,
    sent: Packet,
    data: Seq<u8>,
)
    requires
        carries(keys0, keys, window, sent, data),
        PacketType::of_code(data[4]) == Some(PacketType::HandshakeAck),
    ensures
        sent matches Packet::HandshakeAckPacket(q) && {
            &&& q.writable()
            &&& data == q.image()
        },
{
    lemma_shows(keys0, keys, window, sent, data);
    reveal(carries);
}

/// Two packets that are read from the same bytes are the same.
pub proof fn alike_handshake_ack_packet(
    a: crate::manager::packets::HandshakeAckPacket,
    b: crate::manager::packets::HandshakeAckPacket,
    bytes: Seq<u8>,
)
    requires
        a.decoded_from(bytes),
        b.decoded_from(bytes),
    ensures
        a == b,
{
}

} // verus!
