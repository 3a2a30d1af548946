//! What packets say, for contracts.
use vstd::prelude::*;

use crate::manager::packets::{
    AckPacket, AppRejectErrorPacket, BatchID, BufferId, BufferSize, BytePosition, ByteRange,
    CloseSessionPacket, ControlType, DataPacket, ErrorType, FECInfo, HandshakeAckPacket, HandshakeId,
    HandshakeRejection, HandshakeRejectionReason, HelloPacket, IncompatibleVersionPacket,
    KeepAlivePacket, MetadataPacket, Options, Packet, PacketFingerprint, PacketType, ParityPacket,
    PlaybackStatusPacket, Port, Reserved, RetransmitPacket, SessionDoesNotExistErrorPacket,
    SessionId, TrackRejectionPacket, TrackRequestPacket, UnexpectedPacketErrorPacket, Version,
};
use crate::manager::types::Timestamp;

verus! {

/// What a [`HelloPacket`] says.
#[verifier::ext_equal]
pub struct HelloView {
    pub version: Version,
    pub opts: Options,
    pub packet_type: PacketType,
    pub control_type: ControlType,
    pub reserved: Reserved<2>,
    pub proposed_session_id: SessionId,
    pub timestamp: Timestamp,
    pub handshake_id: HandshakeId,
    pub public_key: Seq<u8>,
    pub receiving_port: Port,
    pub app_id: Seq<u8>,
}

impl View for HelloPacket {
    type V = HelloView;

    open spec fn view(&self) -> HelloView {
        HelloView {
            version: self.version,
            opts: self.opts,
            packet_type: self.packet_type,
            control_type: self.control_type,
            reserved: self.reserved,
            proposed_session_id: self.proposed_session_id,
            timestamp: self.timestamp,
            handshake_id: self.handshake_id,
            public_key: self.public_key@,
            receiving_port: self.receiving_port,
            app_id: self.app_id@,
        }
    }
}

/// What a [`TrackRequestPacket`] says.
#[verifier::ext_equal]
pub struct TrackRequestView {
    pub version: Version,
    pub opts: Options,
    pub packet_type: PacketType,
    pub control_type: ControlType,
    pub reserved: Reserved<2>,
    pub session_id: SessionId,
    pub timestamp: Timestamp,
    pub payload: Seq<u8>,
}

impl View for TrackRequestPacket {
    type V = TrackRequestView;

    open spec fn view(&self) -> TrackRequestView {
        TrackRequestView {
            version: self.version,
            opts: self.opts,
            packet_type: self.packet_type,
            control_type: self.control_type,
            reserved: self.reserved,
            session_id: self.session_id,
            timestamp: self.timestamp,
            payload: self.payload@,
        }
    }
}

/// What a [`DataPacket`] says.
#[verifier::ext_equal]
pub struct DataView {
    pub version: Version,
    pub opts: Options,
    pub packet_type: PacketType,
    pub batch_id: BatchID,
    pub fec_info: FECInfo,
    pub session_id: SessionId,
    pub timestamp: Timestamp,
    pub byte_range_start: BytePosition,
    pub payload: Seq<u8>,
}

impl View for DataPacket {
    type V = DataView;

    open spec fn view(&self) -> DataView {
        DataView {
            version: self.version,
            opts: self.opts,
            packet_type: self.packet_type,
            batch_id: self.batch_id,
            fec_info: self.fec_info,
            session_id: self.session_id,
            timestamp: self.timestamp,
            byte_range_start: self.byte_range_start,
            payload: self.payload@,
        }
    }
}

/// What a [`MetadataPacket`] says.
#[verifier::ext_equal]
pub struct MetadataView {
    pub version: Version,
    pub opts: Options,
    pub packet_type: PacketType,
    pub batch_id: BatchID,
    pub fec_info: FECInfo,
    pub session_id: SessionId,
    pub timestamp: Timestamp,
    pub buffer_id: BufferId,
    pub buffer_size: BufferSize,
    pub position: BytePosition,
    pub payload: Seq<u8>,
}

impl View for MetadataPacket {
    type V = MetadataView;

    open spec fn view(&self) -> MetadataView {
        MetadataView {
            version: self.version,
            opts: self.opts,
            packet_type: self.packet_type,
            batch_id: self.batch_id,
            fec_info: self.fec_info,
            session_id: self.session_id,
            timestamp: self.timestamp,
            buffer_id: self.buffer_id,
            buffer_size: self.buffer_size,
            position: self.position,
            payload: self.payload@,
        }
    }
}

/// What a [`ParityPacket`] says.
#[verifier::ext_equal]
pub struct ParityView {
    pub version: Version,
    pub opts: Options,
    pub packet_type: PacketType,
    pub batch_id: BatchID,
    pub fec_info: FECInfo,
    pub session_id: SessionId,
    pub timestamp: Timestamp,
    pub payload: Seq<u8>,
}

impl View for ParityPacket {
    type V = ParityView;

    open spec fn view(&self) -> ParityView {
        ParityView {
            version: self.version,
            opts: self.opts,
            packet_type: self.packet_type,
            batch_id: self.batch_id,
            fec_info: self.fec_info,
            session_id: self.session_id,
            timestamp: self.timestamp,
            payload: self.payload@,
        }
    }
}

/// What a [`RetransmitPacket`] says.
#[verifier::ext_equal]
pub struct RetransmitView {
    pub version: Version,
    pub opts: Options,
    pub packet_type: PacketType,
    pub control_type: ControlType,
    pub buffer_id: Option<BufferId>,
    pub session_id: SessionId,
    pub timestamp: Timestamp,
    pub payload: Seq<ByteRange>,
}

impl View for RetransmitPacket {
    type V = RetransmitView;

    open spec fn view(&self) -> RetransmitView {
        RetransmitView {
            version: self.version,
            opts: self.opts,
            packet_type: self.packet_type,
            control_type: self.control_type,
            buffer_id: self.buffer_id,
            session_id: self.session_id,
            timestamp: self.timestamp,
            payload: self.payload@,
        }
    }
}

/// What a [`AppRejectErrorPacket`] says.
#[verifier::ext_equal]
pub struct AppRejectView {
    pub version: Version,
    pub opts: Options,
    pub packet_type: PacketType,
    pub error_type: ErrorType,
    pub reserved: Reserved<2>,
    pub session_id: SessionId,
    pub timestamp: Timestamp,
    pub received_type: PacketType,
    pub received_control_type: ControlType,
    pub received_fingerprint: PacketFingerprint,
    pub payload: Seq<u8>,
}

impl View for AppRejectErrorPacket {
    type V = AppRejectView;

    open spec fn view(&self) -> AppRejectView {
        AppRejectView {
            version: self.version,
            opts: self.opts,
            packet_type: self.packet_type,
            error_type: self.error_type,
            reserved: self.reserved,
            session_id: self.session_id,
            timestamp: self.timestamp,
            received_type: self.received_type,
            received_control_type: self.received_control_type,
            received_fingerprint: self.received_fingerprint,
            payload: self.payload@,
        }
    }
}

/// What a [`HandshakeRejection`] says.
#[verifier::ext_equal]
pub struct HandshakeRejectionView {
    pub version: Version,
    pub opts: Options,
    pub packet_type: PacketType,
    pub control_type: ControlType,
    pub reserved: Reserved<2>,
    pub session_id: SessionId,
    pub timestamp: Timestamp,
    pub reason: HandshakeRejectionReason,
    pub handshake_id: HandshakeId,
    pub payload: Seq<u8>,
}

impl View for HandshakeRejection {
    type V = HandshakeRejectionView;

    open spec fn view(&self) -> HandshakeRejectionView {
        HandshakeRejectionView {
            version: self.version,
            opts: self.opts,
            packet_type: self.packet_type,
            control_type: self.control_type,
            reserved: self.reserved,
            session_id: self.session_id,
            timestamp: self.timestamp,
            reason: self.reason,
            handshake_id: self.handshake_id,
            payload: self.payload@,
        }
    }
}

/// What a [`TrackRejectionPacket`] says.
#[verifier::ext_equal]
pub struct TrackRejectionView {
    pub version: Version,
    pub opts: Options,
    pub packet_type: PacketType,
    pub control_type: ControlType,
    pub reserved: Reserved<2>,
    pub session_id: SessionId,
    pub timestamp: Timestamp,
    pub payload: Seq<u8>,
}

impl View for TrackRejectionPacket {
    type V = TrackRejectionView;

    open spec fn view(&self) -> TrackRejectionView {
        TrackRejectionView {
            version: self.version,
            opts: self.opts,
            packet_type: self.packet_type,
            control_type: self.control_type,
            reserved: self.reserved,
            session_id: self.session_id,
            timestamp: self.timestamp,
            payload: self.payload@,
        }
    }
}

/// What a packet says.
#[verifier::ext_equal]
pub enum PacketView {
    Hello(HelloView),
    TrackRequest(TrackRequestView),
    Data(DataView),
    Metadata(MetadataView),
    Parity(ParityView),
    Ack(AckPacket),
    Retransmit(RetransmitView),
    PlaybackStatus(PlaybackStatusPacket),
    IncompatibleVersion(IncompatibleVersionPacket),
    SessionDoesNotExistError(SessionDoesNotExistErrorPacket),
    UnexpectedError(UnexpectedPacketErrorPacket),
    AppRejectError(AppRejectView),
    KeepAlive(KeepAlivePacket),
    CloseSession(CloseSessionPacket),
    HandshakeAck(HandshakeAckPacket),
    HandshakeRejection(HandshakeRejectionView),
    TrackRejection(TrackRejectionView),
}

impl PacketView {
    /// The session that the packet belongs to.
    pub open spec fn session(self) -> Option<SessionId> {
        match self {
            PacketView::Hello(_) => None,
            PacketView::IncompatibleVersion(_) => None,
            PacketView::TrackRequest(p) => Some(p.session_id),
            PacketView::Data(p) => Some(p.session_id),
            PacketView::Metadata(p) => Some(p.session_id),
            PacketView::Parity(p) => Some(p.session_id),
            PacketView::Ack(p) => Some(p.session_id),
            PacketView::Retransmit(p) => Some(p.session_id),
            PacketView::PlaybackStatus(p) => Some(p.session_id),
            PacketView::SessionDoesNotExistError(p) => Some(p.session_id),
            PacketView::UnexpectedError(p) => Some(p.session_id),
            PacketView::AppRejectError(p) => Some(p.session_id),
            PacketView::KeepAlive(p) => Some(p.session_id),
            PacketView::CloseSession(p) => Some(p.session_id),
            PacketView::HandshakeAck(p) => Some(p.session_id),
            PacketView::HandshakeRejection(p) => Some(p.session_id),
            PacketView::TrackRejection(p) => Some(p.session_id),
        }
    }
}

impl View for Packet {
    type V = PacketView;

    open spec fn view(&self) -> PacketView {
        match self {
            Packet::HelloPacket(p) => PacketView::Hello(p@),
            Packet::TrackRequestPacket(p) => PacketView::TrackRequest(p@),
            Packet::DataPacket(p) => PacketView::Data(p@),
            Packet::MetadataPacket(p) => PacketView::Metadata(p@),
            Packet::ParityPacket(p) => PacketView::Parity(p@),
            Packet::AckPacket(p) => PacketView::Ack(**p),
            Packet::RetransmitPacket(p) => PacketView::Retransmit(p@),
            Packet::PlaybackStatusPacket(p) => PacketView::PlaybackStatus(**p),
            Packet::IncompatibleVersionPacket(p) => PacketView::IncompatibleVersion(**p),
            Packet::SessionDoesNotExistErrorPacket(p) => PacketView::SessionDoesNotExistError(**p),
            Packet::UnexpectedPacketErrorPacket(p) => PacketView::UnexpectedError(**p),
            Packet::AppRejectErrorPacket(p) => PacketView::AppRejectError(p@),
            Packet::KeepAlivePacket(p) => PacketView::KeepAlive(**p),
            Packet::CloseSessionPacket(p) => PacketView::CloseSession(**p),
            Packet::HandshakeAckPacket(p) => PacketView::HandshakeAck(**p),
            Packet::HandshakeRejection(p) => PacketView::HandshakeRejection(p@),
            Packet::TrackRejectionPacket(p) => PacketView::TrackRejection(p@),
        }
    }
}

} // verus!
