//! What the packets say of themselves: each names its kind, so that the peer reads it as what
//! it is, and its session and time.
use vstd::prelude::*;

use crate::api::types::ChunkView;
use crate::manager::batches;
use crate::manager::endpoints;
use crate::manager::fields::{
    BatchID, BytePosition, ControlType, ErrorType, HandshakeId, HandshakeRejectionReason,
    HostControlType, Options, PacketType, PlaybackControlType, Port, SessionControlType, SessionId,
};
use crate::manager::hello;
use crate::manager::packets::Packet;
use crate::manager::ranges::{ByteRange, FecConfig};
use crate::manager::received;
use crate::manager::requests;
use crate::manager::send;
use crate::manager::state;
use crate::manager::types::Timestamp;
use crate::manager::views::PacketView;

verus! {

/// The kind that a packet names, and the number of the kind within that one, if it has one.
pub open spec fn named_kind(packet: PacketView) -> (PacketType, Option<u8>) {
    match packet {
        PacketView::Hello(p) => (p.packet_type, Some(p.control_type.code())),
        PacketView::TrackRequest(p) => (p.packet_type, Some(p.control_type.code())),
        PacketView::Data(p) => (p.packet_type, None),
        PacketView::Metadata(p) => (p.packet_type, None),
        PacketView::Parity(p) => (p.packet_type, None),
        PacketView::Ack(p) => (p.packet_type, None),
        PacketView::Retransmit(p) => (p.packet_type, Some(p.control_type.code())),
        PacketView::PlaybackStatus(p) => (p.packet_type, Some(p.control_type.code())),
        PacketView::IncompatibleVersion(_) => (PacketType::Error, None),
        PacketView::SessionDoesNotExistError(p) => (p.packet_type, Some(p.error_type.code())),
        PacketView::UnexpectedError(p) => (p.packet_type, Some(p.error_type.code())),
        PacketView::AppRejectError(p) => (p.packet_type, Some(p.error_type.code())),
        PacketView::KeepAlive(p) => (p.packet_type, None),
        PacketView::CloseSession(p) => (p.packet_type, Some(p.control_type.code())),
        PacketView::HandshakeAck(p) => (p.packet_type, None),
        PacketView::HandshakeRejection(p) => (p.packet_type, Some(p.control_type.code())),
        PacketView::TrackRejection(p) => (p.packet_type, Some(p.control_type.code())),
    }
}

/// Whether a packet names the kind that it is.
pub open spec fn says_what_it_is(packet: PacketView) -> bool {
    let (kind, within) = named_kind(packet);
    match packet {
        PacketView::Hello(_) => kind == PacketType::Host && ControlType::of_code(within->0) == Some(
            ControlType::Host(HostControlType::Hello),
        ),
        PacketView::HandshakeRejection(_) => kind == PacketType::Host && ControlType::of_code(
            within->0,
        ) == Some(ControlType::Host(HostControlType::HandshakeRejection)),
        PacketView::TrackRequest(_) => kind == PacketType::Session && ControlType::of_code(
            within->0,
        ) == Some(ControlType::Session(SessionControlType::TrackRequest)),
        PacketView::TrackRejection(_) => kind == PacketType::Session && ControlType::of_code(
            within->0,
        ) == Some(ControlType::Session(SessionControlType::TrackRejection)),
        PacketView::Retransmit(_) => kind == PacketType::Session && ControlType::of_code(within->0)
            == Some(ControlType::Session(SessionControlType::Retransmit)),
        PacketView::CloseSession(_) => kind == PacketType::Session && ControlType::of_code(
            within->0,
        ) == Some(ControlType::Session(SessionControlType::CloseSession)),
        PacketView::PlaybackStatus(_) => kind == PacketType::Playback,
        PacketView::SessionDoesNotExistError(_) => kind == PacketType::Error && ErrorType::of_code(
            within->0,
        ) == Some(ErrorType::SessionDoesNotExist),
        PacketView::UnexpectedError(_) => kind == PacketType::Error && ErrorType::of_code(within->0)
            == Some(ErrorType::UnexpectedPacket),
        PacketView::AppRejectError(_) => kind == PacketType::Error && ErrorType::of_code(within->0)
            == Some(ErrorType::AppReject),
        PacketView::Data(_) => kind == PacketType::Data,
        PacketView::Metadata(_) => kind == PacketType::Metadata,
        PacketView::Parity(_) => kind == PacketType::Parity,
        PacketView::Ack(_) => kind == PacketType::Ack,
        PacketView::KeepAlive(_) => kind == PacketType::KeepAlive,
        PacketView::HandshakeAck(_) => kind == PacketType::HandshakeAck,
        PacketView::IncompatibleVersion(_) => true,
    }
}

/// Whether a packet is of a session and says what it is.
pub open spec fn is_labelled(packet: PacketView, session: SessionId) -> bool {
    says_what_it_is(packet) && packet.session() == Some(session)
}

/// What is sent to run a stream says what it is, of which session it is and when it was sent,
/// and carries what it was made of.
pub proof fn packets_of_a_stream_say_what_they_are(
    session: SessionId,
    id: Seq<u8>,
    config: FecConfig,
    ranges: Seq<ByteRange>,
    chunks: Seq<ChunkView>,
    i: int,
    batch_id: BatchID,
    control: PlaybackControlType,
    position: Option<BytePosition>,
    now: Timestamp,
)
    ensures
        ({
            let packet = endpoints::track_request_view(session, id, config, now);
            &&& is_labelled(packet, session)
            &&& packet matches PacketView::TrackRequest(p)
            &&& p.timestamp == now
            &&& p.payload.skip(3) == id
            &&& p.version.0 == 1
        }),
        ({
            let packet = endpoints::track_rejection_view(session, id, now);
            &&& is_labelled(packet, session)
            &&& packet matches PacketView::TrackRejection(p)
            &&& p.timestamp == now
            &&& p.payload == id
            &&& p.version.0 == 1
        }),
        ({
            let packet = requests::retransmit_view(session, ranges, now);
            &&& is_labelled(packet, session)
            &&& packet matches PacketView::Retransmit(p)
            &&& p.timestamp == now
            &&& p.payload == ranges
            &&& p.buffer_id is None
            &&& p.version.0 == 1
        }),
        ({
            let packet = endpoints::control_view(session, control, position, now);
            &&& is_labelled(packet, session)
            &&& packet matches PacketView::PlaybackStatus(p)
            &&& p.timestamp == now
            &&& p.control_type == control
            &&& p.seek_position == position
            &&& p.version.0 == 1
        }),
        ({
            let packet = batches::data_view(chunks, i, session, batch_id, config, now);
            &&& is_labelled(packet, session)
            &&& packet matches PacketView::Data(p)
            &&& p.timestamp == now
            &&& p.batch_id == batch_id
            &&& p.payload == chunks[i].payload
            &&& p.version.0 == 1
        }),
{
    assert(endpoints::request_payload(id, config).skip(3) =~= id);
}

/// What is sent to keep up a session says what it is, of which session it is and when it was
/// sent.
pub proof fn packets_of_a_session_say_what_they_are(
    session: SessionId,
    fingerprint: u128,
    opts: Options,
    kind: PacketType,
    within: ControlType,
    words: Seq<u8>,
    now: Timestamp,
)
    ensures
        ({
            let packet = state::keep_alive_view(session, now);
            &&& is_labelled(packet, session)
            &&& packet matches PacketView::KeepAlive(p)
            &&& p.timestamp == now
            &&& p.version.0 == 1
        }),
        ({
            let packet = received::ack_view(session, fingerprint, now);
            &&& is_labelled(packet, session)
            &&& packet matches PacketView::Ack(p)
            &&& p.timestamp == now
            &&& p.fingerprint.0 == fingerprint
            &&& p.version.0 == 1
        }),
        ({
            let packet = received::unexpected_view(session, fingerprint, now);
            &&& is_labelled(packet, session)
            &&& packet matches PacketView::UnexpectedError(p)
            &&& p.timestamp == now
            &&& p.received_packet_type == PacketType::Data
            &&& p.received_fingerprint.0 == fingerprint
            &&& p.version.0 == 1
        }),
        ({
            let packet = send::app_rejected_view(
                opts,
                session,
                kind,
                within,
                fingerprint,
                words,
                now,
            );
            &&& is_labelled(packet, session)
            &&& packet matches PacketView::AppRejectError(p)
            &&& p.timestamp == now
            &&& p.received_type == kind
            &&& p.received_control_type == within
            &&& p.received_fingerprint.0 == fingerprint
            &&& p.payload == words
            &&& p.version.0 == 1
        }),
        ({
            let packet: Packet = endpoints::close_session_packet(session, now);
            &&& is_labelled(packet@, session)
            &&& packet@ matches PacketView::CloseSession(p)
            &&& p.timestamp == now
            &&& p.version.0 == 1
        }),
{
}

/// What is sent to set up a session says what it is, which session and handshake it is about
/// and when it was sent.
pub proof fn packets_of_a_handshake_say_what_they_are(
    opts: Options,
    session: SessionId,
    handshake: HandshakeId,
    public_key: Seq<u8>,
    app_id: Seq<u8>,
    port: Port,
    reason: HandshakeRejectionReason,
    payload: Seq<u8>,
    now: Timestamp,
)
    ensures
        ({
            let packet = hello::hello_view(
                opts,
                session,
                handshake,
                public_key,
                app_id,
                port,
                now,
            );
            &&& says_what_it_is(packet)
            &&& packet matches PacketView::Hello(p)
            &&& p.proposed_session_id == session
            &&& p.handshake_id == handshake
            &&& p.public_key == public_key
            &&& p.app_id == app_id
            &&& p.receiving_port == port
            &&& p.opts == opts
            &&& p.timestamp == now
            &&& p.version.0 == 1
        }),
        ({
            let packet = hello::rejection_view(session, reason, handshake, payload, now);
            &&& is_labelled(packet, session)
            &&& packet matches PacketView::HandshakeRejection(p)
            &&& p.reason == reason
            &&& p.handshake_id == handshake
            &&& p.payload == payload
            &&& p.timestamp == now
            &&& p.version.0 == 1
        }),
        ({
            let packet = hello::handshake_ack_view(session, handshake, now);
            &&& is_labelled(packet, session)
            &&& packet matches PacketView::HandshakeAck(p)
            &&& p.handshake_id == handshake
            &&& p.timestamp == now
            &&& p.version.0 == 1
        }),
{
}

} // verus!
