//! The protocol's packets: how they are made, and what they have in common.
use vstd::prelude::*;

pub use crate::manager::fields::{
    BatchID, BufferId, BufferSize, BytePosition, ControlType, ErrorType, FecScheme, HandshakeId,
    HandshakeRejectionReason, HostControlType, OptionFlags, Options, PacketType,
    PlaybackControlType, Port, SecondaryType, SessionControlType, SessionId, Version,
    CURRENT_VERSION, MAX_PAYLOAD_LENGTH, MIN_COMPATIBLE_VERSION,
};
pub use crate::manager::identity::{Address, AppId, PacketFingerprint, PublicKey, Reserved};
pub use crate::manager::images::{
    AckPacket, AppRejectErrorPacket, CloseSessionPacket, DataPacket, HandshakeAckPacket,
    HandshakeRejection, HelloPacket, KeepAlivePacket, MetadataPacket, ParityPacket,
    RetransmitPacket, SessionDoesNotExistErrorPacket, TrackRejectionPacket, TrackRequestPacket,
    UnexpectedPacketErrorPacket,
};
pub use crate::manager::ranges::{ByteRange, FECInfo, FecConfig};
use crate::manager::header;
use crate::manager::types::Timestamp;
use crate::packet_processor::fingerprint;
use crate::packet_processor::fingerprint::{header_fingerprint, Headers};
use crate::packet_processor::serialize::Serialize;
use crate::utils::Flags;
use crate::wire;

verus! {

/// The options `opts` and a request for an acknowledgement.
pub open spec fn with_ack(opts: Options) -> Options {
    Options(opts.0 | 1)
}

fn set_ack(opts: Options) -> (r: Options)
    ensures
        r == with_ack(opts),
{
    let bits: u16 = opts.0;
    assert((bits as u32) | 1u32 == (bits | 1) as u32) by (bit_vector);
    opts.set(OptionFlags::RequireAck)
}

/// Options that ask for an acknowledgement and nothing else.
pub fn ack_wanted() -> (opts: Options)
    ensures
        opts == with_ack(Options(0)),
{
    set_ack(Options::none())
}

/// Whether `opts` ask for an acknowledgement.
pub open spec fn wants_ack(opts: Options) -> bool {
    opts.0 & 1 != 0
}

/// Whether `opts` ask for an acknowledgement.
pub fn requires_ack(opts: Options) -> (r: bool)
    ensures
        r == wants_ack(opts),
{
    let bits: u16 = opts.0;
    assert((bits as u32) & 1u32 == (bits & 1) as u32) by (bit_vector);
    opts.contains(OptionFlags::RequireAck)
}

/// Asking for an acknowledgement asks for one.
pub proof fn ack_can_be_asked_for(opts: Options)
    ensures
        wants_ack(with_ack(opts)),
{
    let bits = opts.0;
    assert((bits | 1) & 1 != 0) by (bit_vector);
}

/// Packets without options need no acknowledgement.
pub proof fn no_options_want_no_ack()
    ensures
        !wants_ack(Options(0)),
{
    assert(0u16 & 1u16 == 0u16) by (bit_vector);
}

impl HelloPacket {
    /// An offer of the session `proposed_session_id`, or the answer to one.
    pub fn new(opts: Options, proposed_session_id: SessionId, handshake_id: HandshakeId, public_key: PublicKey, app_id: AppId, receiving_port: Port, timestamp: Timestamp) -> (r: Box<Self>)
        ensures
            *r == (HelloPacket {
                version: Version(CURRENT_VERSION),
                opts,
                packet_type: PacketType::Host,
                control_type: ControlType::Host(HostControlType::Hello),
                reserved: Reserved,
                proposed_session_id,
                timestamp,
                handshake_id,
                public_key,
                receiving_port,
                app_id,
            }),
    {
        Box::new(HelloPacket {
            version: Version::current(),
            opts,
            packet_type: PacketType::Host,
            control_type: ControlType::Host(HostControlType::Hello),
            reserved: Reserved,
            proposed_session_id,
            timestamp,
            handshake_id,
            public_key,
            receiving_port,
            app_id,
        })
    }
}

impl TrackRequestPacket {
    /// A request for the stream that `payload` names.
    pub fn request_track(opts: Options, session_id: SessionId, payload: Vec<u8>, timestamp: Timestamp) -> (r: Box<Self>)
        ensures
            *r == (TrackRequestPacket {
                version: Version(CURRENT_VERSION),
                opts: with_ack(opts),
                packet_type: PacketType::Session,
                control_type: ControlType::Session(SessionControlType::TrackRequest),
                reserved: Reserved,
                session_id,
                timestamp,
                payload,
            }),
    {
        Box::new(TrackRequestPacket {
            version: Version::current(),
            opts: set_ack(opts),
            packet_type: PacketType::Session,
            control_type: ControlType::Session(SessionControlType::TrackRequest),
            reserved: Reserved,
            session_id,
            timestamp,
            payload,
        })
    }
}

impl TrackRequestPacket {
    /// A request for bytes about the stream that `payload` names.
    pub fn request_metadata(opts: Options, session_id: SessionId, payload: Vec<u8>, timestamp: Timestamp) -> (r: Box<Self>)
        ensures
            *r == (TrackRequestPacket {
                version: Version(CURRENT_VERSION),
                opts: with_ack(opts),
                packet_type: PacketType::Session,
                control_type: ControlType::Session(SessionControlType::MetadataRequest),
                reserved: Reserved,
                session_id,
                timestamp,
                payload,
            }),
    {
        Box::new(TrackRequestPacket {
            version: Version::current(),
            opts: set_ack(opts),
            packet_type: PacketType::Session,
            control_type: ControlType::Session(SessionControlType::MetadataRequest),
            reserved: Reserved,
            session_id,
            timestamp,
            payload,
        })
    }
}

impl DataPacket {
    /// Bytes of a stream from `byte_range_start` on.
    pub fn new(opts: Options, batch_id: BatchID, fec_info: FECInfo, session_id: SessionId, byte_range_start: BytePosition, payload: Vec<u8>, timestamp: Timestamp) -> (r: Box<Self>)
        ensures
            *r == (DataPacket {
                version: Version(CURRENT_VERSION),
                opts,
                packet_type: PacketType::Data,
                batch_id,
                fec_info,
                session_id,
                timestamp,
                byte_range_start,
                payload,
            }),
    {
        Box::new(DataPacket {
            version: Version::current(),
            opts,
            packet_type: PacketType::Data,
            batch_id,
            fec_info,
            session_id,
            timestamp,
            byte_range_start,
            payload,
        })
    }
}

impl MetadataPacket {
    /// Bytes of the metadata buffer `buffer_id` from `position` on.
    pub fn new(opts: Options, batch_id: BatchID, fec_info: FECInfo, session_id: SessionId, buffer_id: BufferId, buffer_size: BufferSize, position: BytePosition, payload: Vec<u8>, timestamp: Timestamp) -> (r: Box<Self>)
        requires
            position.0 < buffer_size.0,
        ensures
            *r == (MetadataPacket {
                version: Version(CURRENT_VERSION),
                opts,
                packet_type: PacketType::Metadata,
                batch_id,
                fec_info,
                session_id,
                timestamp,
                buffer_id,
                buffer_size,
                position,
                payload,
            }),
    {
        Box::new(MetadataPacket {
            version: Version::current(),
            opts,
            packet_type: PacketType::Metadata,
            batch_id,
            fec_info,
            session_id,
            timestamp,
            buffer_id,
            buffer_size,
            position,
            payload,
        })
    }
}

impl ParityPacket {
    /// Recovery data of a batch.
    pub fn new(opts: Options, batch_id: BatchID, fec_info: FECInfo, session_id: SessionId, payload: Vec<u8>, timestamp: Timestamp) -> (r: Box<Self>)
        ensures
            *r == (ParityPacket {
                version: Version(CURRENT_VERSION),
                opts,
                packet_type: PacketType::Parity,
                batch_id,
                fec_info,
                session_id,
                timestamp,
                payload,
            }),
    {
        Box::new(ParityPacket {
            version: Version::current(),
            opts,
            packet_type: PacketType::Parity,
            batch_id,
            fec_info,
            session_id,
            timestamp,
            payload,
        })
    }
}

impl AckPacket {
    /// An acknowledgement of the packet with the given fingerprint. It is never acknowledged itself.
    pub fn new(opts: Options, session_id: SessionId, fingerprint: PacketFingerprint, timestamp: Timestamp) -> (r: Box<Self>)
        requires
            !wants_ack(opts),
        ensures
            *r == (AckPacket {
                version: Version(CURRENT_VERSION),
                opts,
                packet_type: PacketType::Ack,
                reserved: Reserved,
                session_id,
                timestamp,
                fingerprint,
            }),
    {
        Box::new(AckPacket {
            version: Version::current(),
            opts,
            packet_type: PacketType::Ack,
            reserved: Reserved,
            session_id,
            timestamp,
            fingerprint,
        })
    }
}

/// The most ranges that one request to send again names.
pub const MAX_RANGES_PER_PACKET: usize = 230;

impl RetransmitPacket {
    /// A request to send the ranges in `payload` again.
    pub fn new(opts: Options, buffer_id: Option<BufferId>, session_id: SessionId, payload: Vec<ByteRange>, timestamp: Timestamp) -> (r: Box<Self>)
        requires
            payload@.len() <= MAX_RANGES_PER_PACKET,
        ensures
            *r == (RetransmitPacket {
                version: Version(CURRENT_VERSION),
                opts: with_ack(opts),
                packet_type: PacketType::Session,
                control_type: ControlType::Session(SessionControlType::Retransmit),
                buffer_id,
                session_id,
                timestamp,
                payload,
            }),
    {
        Box::new(RetransmitPacket {
            version: Version::current(),
            opts: set_ack(opts),
            packet_type: PacketType::Session,
            control_type: ControlType::Session(SessionControlType::Retransmit),
            buffer_id,
            session_id,
            timestamp,
            payload,
        })
    }
}

impl RetransmitPacket {
    /// A request to send the ranges in `payload` of the stream's bytes again.
    pub fn data(opts: Options, session_id: SessionId, payload: Vec<ByteRange>, timestamp: Timestamp) -> (r: Box<Self>)
        requires
            payload@.len() <= MAX_RANGES_PER_PACKET,
        ensures
            *r == (RetransmitPacket {
                version: Version(CURRENT_VERSION),
                opts: with_ack(opts),
                packet_type: PacketType::Session,
                control_type: ControlType::Session(SessionControlType::Retransmit),
                buffer_id: None,
                session_id,
                timestamp,
                payload,
            }),
    {
        RetransmitPacket::new(opts, None, session_id, payload, timestamp)
    }
}

impl SessionDoesNotExistErrorPacket {
    /// A complaint that a packet was for the session `session_id`, which there is not.
    pub fn new(opts: Options, session_id: SessionId, timestamp: Timestamp) -> (r: Box<Self>)
        ensures
            *r == (SessionDoesNotExistErrorPacket {
                version: Version(CURRENT_VERSION),
                opts,
                packet_type: PacketType::Error,
                error_type: ErrorType::SessionDoesNotExist,
                reserved: Reserved,
                session_id,
                timestamp,
            }),
    {
        Box::new(SessionDoesNotExistErrorPacket {
            version: Version::current(),
            opts,
            packet_type: PacketType::Error,
            error_type: ErrorType::SessionDoesNotExist,
            reserved: Reserved,
            session_id,
            timestamp,
        })
    }
}

impl UnexpectedPacketErrorPacket {
    /// A complaint about a packet that made no sense in the current state.
    pub fn unexpected(opts: Options, session_id: SessionId, received_packet_type: PacketType, received_secondary_type: SecondaryType, received_fingerprint: PacketFingerprint, timestamp: Timestamp) -> (r: Box<Self>)
        ensures
            *r == (UnexpectedPacketErrorPacket {
                version: Version(CURRENT_VERSION),
                opts,
                packet_type: PacketType::Error,
                error_type: ErrorType::UnexpectedPacket,
                reserved: Reserved,
                session_id,
                timestamp,
                received_packet_type,
                received_secondary_type,
                received_fingerprint,
            }),
    {
        Box::new(UnexpectedPacketErrorPacket {
            version: Version::current(),
            opts,
            packet_type: PacketType::Error,
            error_type: ErrorType::UnexpectedPacket,
            reserved: Reserved,
            session_id,
            timestamp,
            received_packet_type,
            received_secondary_type,
            received_fingerprint,
        })
    }
}

impl UnexpectedPacketErrorPacket {
    /// A complaint about a packet that made no sense.
    pub fn incomprehensible(opts: Options, session_id: SessionId, received_packet_type: PacketType, received_secondary_type: SecondaryType, received_fingerprint: PacketFingerprint, timestamp: Timestamp) -> (r: Box<Self>)
        ensures
            *r == (UnexpectedPacketErrorPacket {
                version: Version(CURRENT_VERSION),
                opts,
                packet_type: PacketType::Error,
                error_type: ErrorType::IncomprehensiblePacket,
                reserved: Reserved,
                session_id,
                timestamp,
                received_packet_type,
                received_secondary_type,
                received_fingerprint,
            }),
    {
        Box::new(UnexpectedPacketErrorPacket {
            version: Version::current(),
            opts,
            packet_type: PacketType::Error,
            error_type: ErrorType::IncomprehensiblePacket,
            reserved: Reserved,
            session_id,
            timestamp,
            received_packet_type,
            received_secondary_type,
            received_fingerprint,
        })
    }
}

impl AppRejectErrorPacket {
    /// The application's refusal of a packet, with its words.
    pub fn new(opts: Options, session_id: SessionId, received_type: PacketType, received_control_type: ControlType, received_fingerprint: PacketFingerprint, message: Vec<u8>, timestamp: Timestamp) -> (r: Box<Self>)
        ensures
            *r == (AppRejectErrorPacket {
                version: Version(CURRENT_VERSION),
                opts: with_ack(opts),
                packet_type: PacketType::Error,
                error_type: ErrorType::AppReject,
                reserved: Reserved,
                session_id,
                timestamp,
                received_type,
                received_control_type,
                received_fingerprint,
                payload: message,
            }),
    {
        Box::new(AppRejectErrorPacket {
            version: Version::current(),
            opts: set_ack(opts),
            packet_type: PacketType::Error,
            error_type: ErrorType::AppReject,
            reserved: Reserved,
            session_id,
            timestamp,
            received_type,
            received_control_type,
            received_fingerprint,
            payload: message,
        })
    }
}

impl KeepAlivePacket {
    /// A sign of life.
    pub fn new(opts: Options, session_id: SessionId, timestamp: Timestamp) -> (r: Box<Self>)
        ensures
            *r == (KeepAlivePacket {
                version: Version(CURRENT_VERSION),
                opts,
                packet_type: PacketType::KeepAlive,
                reserved: Reserved,
                session_id,
                timestamp,
            }),
    {
        Box::new(KeepAlivePacket {
            version: Version::current(),
            opts,
            packet_type: PacketType::KeepAlive,
            reserved: Reserved,
            session_id,
            timestamp,
        })
    }
}

impl CloseSessionPacket {
    /// The end of a session.
    pub fn new(opts: Options, session_id: SessionId, timestamp: Timestamp) -> (r: Box<Self>)
        ensures
            *r == (CloseSessionPacket {
                version: Version(CURRENT_VERSION),
                opts,
                packet_type: PacketType::Session,
                control_type: ControlType::Session(SessionControlType::CloseSession),
                reserved: Reserved,
                session_id,
                timestamp,
            }),
    {
        Box::new(CloseSessionPacket {
            version: Version::current(),
            opts,
            packet_type: PacketType::Session,
            control_type: ControlType::Session(SessionControlType::CloseSession),
            reserved: Reserved,
            session_id,
            timestamp,
        })
    }
}

impl HandshakeAckPacket {
    /// The last step of a handshake.
    pub fn new(session_id: SessionId, handshake_id: HandshakeId, timestamp: Timestamp) -> (r: Box<Self>)
        ensures
            *r == (HandshakeAckPacket {
                version: Version(CURRENT_VERSION),
                opts: Options(0),
                packet_type: PacketType::HandshakeAck,
                reserved: Reserved,
                session_id,
                timestamp,
                handshake_id,
            }),
    {
        Box::new(HandshakeAckPacket {
            version: Version::current(),
            opts: Options(0),
            packet_type: PacketType::HandshakeAck,
            reserved: Reserved,
            session_id,
            timestamp,
            handshake_id,
        })
    }
}

impl HandshakeRejection {
    /// A refused offer of a session, with the reason and its words.
    pub fn new(opts: Options, session_id: SessionId, reason: HandshakeRejectionReason, handshake_id: HandshakeId, payload: Vec<u8>, timestamp: Timestamp) -> (r: Box<Self>)
        ensures
            *r == (HandshakeRejection {
                version: Version(CURRENT_VERSION),
                opts,
                packet_type: PacketType::Host,
                control_type: ControlType::Host(HostControlType::HandshakeRejection),
                reserved: Reserved,
                session_id,
                timestamp,
                reason,
                handshake_id,
                payload,
            }),
    {
        Box::new(HandshakeRejection {
            version: Version::current(),
            opts,
            packet_type: PacketType::Host,
            control_type: ControlType::Host(HostControlType::HandshakeRejection),
            reserved: Reserved,
            session_id,
            timestamp,
            reason,
            handshake_id,
            payload,
        })
    }
}

impl TrackRejectionPacket {
    /// A refused request for the stream that `payload` names.
    pub fn new(opts: Options, session_id: SessionId, payload: Vec<u8>, timestamp: Timestamp) -> (r: Box<Self>)
        ensures
            *r == (TrackRejectionPacket {
                version: Version(CURRENT_VERSION),
                opts,
                packet_type: PacketType::Session,
                control_type: ControlType::Session(SessionControlType::TrackRejection),
                reserved: Reserved,
                session_id,
                timestamp,
                payload,
            }),
    {
        Box::new(TrackRejectionPacket {
            version: Version::current(),
            opts,
            packet_type: PacketType::Session,
            control_type: ControlType::Session(SessionControlType::TrackRejection),
            reserved: Reserved,
            session_id,
            timestamp,
            payload,
        })
    }
}

/// Control of a stream.
#[derive(Debug, Clone, Copy)]
pub struct PlaybackStatusPacket {
    pub version: Version,
    pub opts: Options,
    pub packet_type: PacketType,
    pub control_type: PlaybackControlType,
    pub reserved: Reserved<2>,
    pub session_id: SessionId,
    pub timestamp: Timestamp,
    /// Where to go on; only a seek has it.
    pub seek_position: Option<BytePosition>,
}

impl PlaybackStatusPacket {
    /// The packet of a playback control.
    pub open spec fn of(
        opts: Options,
        session_id: SessionId,
        control_type: PlaybackControlType,
        seek_position: Option<BytePosition>,
        timestamp: Timestamp,
    ) -> PlaybackStatusPacket {
        PlaybackStatusPacket {
            version: Version(CURRENT_VERSION),
            opts: with_ack(opts),
            packet_type: PacketType::Playback,
            control_type,
            reserved: Reserved,
            session_id,
            timestamp,
            seek_position,
        }
    }

    /// The packet of a playback control.
    pub fn new(
        opts: Options,
        session_id: SessionId,
        playback_type: PlaybackControlType,
        seek_position: Option<BytePosition>,
        timestamp: Timestamp,
    ) -> (r: Box<Self>)
        ensures
            *r == PlaybackStatusPacket::of(opts, session_id, playback_type, seek_position, timestamp),
    {
        Box::new(
            PlaybackStatusPacket {
                version: Version::current(),
                opts: set_ack(opts),
                packet_type: PacketType::Playback,
                control_type: playback_type,
                reserved: Reserved,
                session_id,
                timestamp,
                seek_position,
            },
        )
    }

    /// Go on sending.
    pub fn play(opts: Options, session_id: SessionId, timestamp: Timestamp) -> (r: Box<Self>)
        ensures
            *r == PlaybackStatusPacket::of(
                opts,
                session_id,
                PlaybackControlType::Play,
                None,
                timestamp,
            ),
    {
        PlaybackStatusPacket::new(opts, session_id, PlaybackControlType::Play, None, timestamp)
    }

    /// Hold sending.
    pub fn pause(opts: Options, session_id: SessionId, timestamp: Timestamp) -> (r: Box<Self>)
        ensures
            *r == PlaybackStatusPacket::of(
                opts,
                session_id,
                PlaybackControlType::Pause,
                None,
                timestamp,
            ),
    {
        PlaybackStatusPacket::new(opts, session_id, PlaybackControlType::Pause, None, timestamp)
    }

    /// Close the stream.
    pub fn stop(opts: Options, session_id: SessionId, timestamp: Timestamp) -> (r: Box<Self>)
        ensures
            *r == PlaybackStatusPacket::of(
                opts,
                session_id,
                PlaybackControlType::Stop,
                None,
                timestamp,
            ),
    {
        PlaybackStatusPacket::new(opts, session_id, PlaybackControlType::Stop, None, timestamp)
    }

    /// The stream has arrived in full.
    pub fn done(opts: Options, session_id: SessionId, timestamp: Timestamp) -> (r: Box<Self>)
        ensures
            *r == PlaybackStatusPacket::of(
                opts,
                session_id,
                PlaybackControlType::Done,
                None,
                timestamp,
            ),
    {
        PlaybackStatusPacket::new(opts, session_id, PlaybackControlType::Done, None, timestamp)
    }
}

impl Headers for PlaybackStatusPacket {
    open spec fn head_image(&self) -> Seq<u8> {
        header::control_image(
            self.version.0,
            self.opts.0,
            self.packet_type.code(),
            self.control_type.code(),
            0,
            self.session_id.0,
            self.timestamp.0,
        ) + (match self.seek_position {
            Some(p) => wire::be32(p.0),
            None => seq![],
        })
    }

    fn headers(&self) -> Vec<u8> {
        let mut out: Vec<u8> = Vec::new();
        header::put_control(
            &mut out,
            self.version.0,
            self.opts.0,
            self.packet_type.to_code(),
            self.control_type.to_code(),
            0,
            self.session_id.0,
            self.timestamp.0,
        );
        match self.seek_position {
            Some(p) => {
                wire::put_u32(&mut out, p.0);
            },
            None => {},
        }
        assert(out@ =~= self.head_image());
        out
    }
}

impl Serialize for PlaybackStatusPacket {
    open spec fn image(&self) -> Seq<u8> {
        self.head_image()
    }

    open spec fn decodes(bytes: Seq<u8>) -> bool {
        &&& bytes.len() >= 24
        &&& PacketType::of_code(bytes[4]) is Some
        &&& PlaybackControlType::of_code(bytes[5]) is Some
        &&& PlaybackControlType::of_code(bytes[5]) == Some(PlaybackControlType::Seek)
            ==> bytes.len() >= 28
    }

    open spec fn decoded_from(&self, bytes: Seq<u8>) -> bool {
        &&& self.version.0 == wire::rd16(bytes, 0)
        &&& self.opts.0 == wire::rd16(bytes, 2)
        &&& PacketType::of_code(bytes[4]) == Some(self.packet_type)
        &&& PlaybackControlType::of_code(bytes[5]) == Some(self.control_type)
        &&& self.session_id.0 == wire::rd64(bytes, 8)
        &&& self.timestamp.0 == wire::rd64(bytes, 16)
        &&& self.seek_position == (if self.control_type == PlaybackControlType::Seek {
            Some(BytePosition(wire::rd32(bytes, 24)))
        } else {
            None
        })
    }

    open spec fn writable(&self) -> bool {
        self.seek_position is Some <==> self.control_type == PlaybackControlType::Seek
    }

    proof fn image_decodes(&self) {
        let s = self.image();
        assert(s.subrange(0, 24) =~= header::control_image(
            self.version.0,
            self.opts.0,
            self.packet_type.code(),
            self.control_type.code(),
            0,
            self.session_id.0,
            self.timestamp.0,
        ));
        header::lemma_control(
            s,
            self.version.0,
            self.opts.0,
            self.packet_type.code(),
            self.control_type.code(),
            0,
            self.session_id.0,
            self.timestamp.0,
        );
        if let Some(p) = self.seek_position {
            assert(s.subrange(24, 28) =~= wire::be32(p.0));
            wire::lemma_rd32(s, 24, p.0);
        }
    }

    fn put(&self, out: &mut Vec<u8>) {
        let h: Vec<u8> = self.headers();
        wire::put_bytes(out, h.as_slice());
    }

    fn sized(&self) -> usize {
        match self.seek_position {
            Some(_) => 28,
            None => 24,
        }
    }

    fn deserialize(bytes: &[u8]) -> Result<Self, ()> {
        if bytes.len() < 24 {
            return Err(());
        }
        let packet_type: PacketType = match PacketType::from_code(bytes[4]) {
            Some(t) => t,
            None => {
                return Err(());
            },
        };
        let control_type: PlaybackControlType = match PlaybackControlType::from_code(bytes[5]) {
            Some(t) => t,
            None => {
                return Err(());
            },
        };
        let seek_position: Option<BytePosition> = if control_type == PlaybackControlType::Seek {
            if bytes.len() < 28 {
                return Err(());
            }
            Some(BytePosition(wire::get_u32(bytes, 24)))
        } else {
            None
        };
        Ok(
            PlaybackStatusPacket {
                version: Version(wire::get_u16(bytes, 0)),
                opts: Options(wire::get_u16(bytes, 2)),
                packet_type,
                control_type,
                reserved: Reserved,
                session_id: SessionId(wire::get_u64(bytes, 8)),
                timestamp: Timestamp(wire::get_u64(bytes, 16)),
                seek_position,
            },
        )
    }
}

/// A complaint about a packet of a version that is not understood.
#[derive(Debug, Clone, Copy)]
pub struct IncompatibleVersionPacket {
    pub zero_version: Version,
    pub min_version: Version,
}

impl IncompatibleVersionPacket {
    /// The complaint: version zero, and the oldest version that is understood.
    pub open spec fn spec_packet() -> IncompatibleVersionPacket {
        IncompatibleVersionPacket {
            zero_version: Version(0),
            min_version: Version(MIN_COMPATIBLE_VERSION),
        }
    }

    /// The complaint: version zero, and the oldest version that is understood.
    pub fn packet() -> (r: Box<Self>)
        ensures
            *r == Self::spec_packet(),
    {
        Box::new(
            IncompatibleVersionPacket {
                zero_version: Version(0),
                min_version: Version::min_compatible(),
            },
        )
    }
}

impl Serialize for IncompatibleVersionPacket {
    open spec fn image(&self) -> Seq<u8> {
        wire::be16(self.zero_version.0) + wire::be16(self.min_version.0)
    }

    open spec fn decodes(bytes: Seq<u8>) -> bool {
        bytes.len() >= 4
    }

    open spec fn decoded_from(&self, bytes: Seq<u8>) -> bool {
        self.zero_version.0 == wire::rd16(bytes, 0) && self.min_version.0 == wire::rd16(bytes, 2)
    }

    open spec fn writable(&self) -> bool {
        true
    }

    proof fn image_decodes(&self) {
        let s = self.image();
        assert(s.subrange(0, 2) =~= wire::be16(self.zero_version.0));
        assert(s.subrange(2, 4) =~= wire::be16(self.min_version.0));
        wire::lemma_rd16(s, 0, self.zero_version.0);
        wire::lemma_rd16(s, 2, self.min_version.0);
    }

    fn put(&self, out: &mut Vec<u8>) {
        wire::put_u16(out, self.zero_version.0);
        wire::put_u16(out, self.min_version.0);
        assert(out@ =~= old(out)@ + self.image());
    }

    fn sized(&self) -> usize {
        4
    }

    fn deserialize(bytes: &[u8]) -> Result<Self, ()> {
        if bytes.len() < 4 {
            return Err(());
        }
        Ok(
            IncompatibleVersionPacket {
                zero_version: Version(wire::get_u16(bytes, 0)),
                min_version: Version(wire::get_u16(bytes, 2)),
            },
        )
    }
}

/// Any packet.
#[derive(Debug)]
pub enum Packet {
    HelloPacket(Box<HelloPacket>),
    TrackRequestPacket(Box<TrackRequestPacket>),
    DataPacket(Box<DataPacket>),
    MetadataPacket(Box<MetadataPacket>),
    ParityPacket(Box<ParityPacket>),
    AckPacket(Box<AckPacket>),
    RetransmitPacket(Box<RetransmitPacket>),
    PlaybackStatusPacket(Box<PlaybackStatusPacket>),
    IncompatibleVersionPacket(Box<IncompatibleVersionPacket>),
    SessionDoesNotExistErrorPacket(Box<SessionDoesNotExistErrorPacket>),
    UnexpectedPacketErrorPacket(Box<UnexpectedPacketErrorPacket>),
    AppRejectErrorPacket(Box<AppRejectErrorPacket>),
    KeepAlivePacket(Box<KeepAlivePacket>),
    CloseSessionPacket(Box<CloseSessionPacket>),
    HandshakeAckPacket(Box<HandshakeAckPacket>),
    HandshakeRejection(Box<HandshakeRejection>),
    TrackRejectionPacket(Box<TrackRejectionPacket>),
}

/// A packet and where it came from or goes to.
#[derive(Debug)]
pub struct PacketWrapper {
    pub addr: Address,
    pub packet: Packet,
}

impl Packet {
    /// The packet for the peer at `addr`.
    pub fn wrap(self, addr: Address) -> (w: PacketWrapper)
        ensures
            w == (PacketWrapper { addr, packet: self }),
    {
        PacketWrapper { addr, packet: self }
    }

    /// The packet's bytes.
    pub open spec fn image(self) -> Seq<u8> {
        match self {
            Packet::HelloPacket(p) => p.image(),
            Packet::TrackRequestPacket(p) => p.image(),
            Packet::DataPacket(p) => p.image(),
            Packet::MetadataPacket(p) => p.image(),
            Packet::ParityPacket(p) => p.image(),
            Packet::AckPacket(p) => p.image(),
            Packet::RetransmitPacket(p) => p.image(),
            Packet::PlaybackStatusPacket(p) => p.image(),
            Packet::IncompatibleVersionPacket(p) => p.image(),
            Packet::SessionDoesNotExistErrorPacket(p) => p.image(),
            Packet::UnexpectedPacketErrorPacket(p) => p.image(),
            Packet::AppRejectErrorPacket(p) => p.image(),
            Packet::KeepAlivePacket(p) => p.image(),
            Packet::CloseSessionPacket(p) => p.image(),
            Packet::HandshakeAckPacket(p) => p.image(),
            Packet::HandshakeRejection(p) => p.image(),
            Packet::TrackRejectionPacket(p) => p.image(),
        }
    }

    /// The bytes that a packet is recognised by when it is acknowledged: its
    /// headers. Packets that are never acknowledged have none.
    pub open spec fn fingerprinted(self) -> Option<Seq<u8>> {
        match self {
            Packet::TrackRequestPacket(p) => Some(p.head_image()),
            Packet::DataPacket(p) => Some(p.head_image()),
            Packet::MetadataPacket(p) => Some(p.head_image()),
            Packet::ParityPacket(p) => Some(p.head_image()),
            Packet::RetransmitPacket(p) => Some(p.head_image()),
            Packet::PlaybackStatusPacket(p) => Some(p.head_image()),
            Packet::UnexpectedPacketErrorPacket(p) => Some(p.head_image()),
            Packet::AppRejectErrorPacket(p) => Some(p.head_image()),
            Packet::TrackRejectionPacket(p) => Some(p.head_image()),
            _ => None,
        }
    }

    /// The fingerprint that an acknowledgement names the packet by.
    pub fn fingerprint(&self) -> (r: Option<PacketFingerprint>)
        ensures
            r == (match self.fingerprinted() {
                Some(bytes) => Some(PacketFingerprint(fingerprint::xxh3_128_of(bytes))),
                None => None,
            }),
    {
        match self {
            Packet::TrackRequestPacket(p) => Some(header_fingerprint(&**p)),
            Packet::DataPacket(p) => Some(header_fingerprint(&**p)),
            Packet::MetadataPacket(p) => Some(header_fingerprint(&**p)),
            Packet::ParityPacket(p) => Some(header_fingerprint(&**p)),
            Packet::RetransmitPacket(p) => Some(header_fingerprint(&**p)),
            Packet::PlaybackStatusPacket(p) => Some(header_fingerprint(&**p)),
            Packet::UnexpectedPacketErrorPacket(p) => Some(header_fingerprint(&**p)),
            Packet::AppRejectErrorPacket(p) => Some(header_fingerprint(&**p)),
            Packet::TrackRejectionPacket(p) => Some(header_fingerprint(&**p)),
            _ => None,
        }
    }

    /// The session that the packet belongs to.
    pub fn session_id(&self) -> (r: Option<SessionId>)
        ensures
            r == self@.session(),
    {
        match self {
            Packet::HelloPacket(_) => None,
            Packet::IncompatibleVersionPacket(_) => None,
            Packet::TrackRequestPacket(p) => Some(p.session_id),
            Packet::DataPacket(p) => Some(p.session_id),
            Packet::MetadataPacket(p) => Some(p.session_id),
            Packet::ParityPacket(p) => Some(p.session_id),
            Packet::AckPacket(p) => Some(p.session_id),
            Packet::RetransmitPacket(p) => Some(p.session_id),
            Packet::PlaybackStatusPacket(p) => Some(p.session_id),
            Packet::SessionDoesNotExistErrorPacket(p) => Some(p.session_id),
            Packet::UnexpectedPacketErrorPacket(p) => Some(p.session_id),
            Packet::AppRejectErrorPacket(p) => Some(p.session_id),
            Packet::KeepAlivePacket(p) => Some(p.session_id),
            Packet::CloseSessionPacket(p) => Some(p.session_id),
            Packet::HandshakeAckPacket(p) => Some(p.session_id),
            Packet::HandshakeRejection(p) => Some(p.session_id),
            Packet::TrackRejectionPacket(p) => Some(p.session_id),
        }
    }

    /// Another copy of the packet.
    pub fn duplicate(&self) -> (r: Packet)
        ensures
            r@ == self@,
    {
        match self {
            Packet::HelloPacket(p) => Packet::HelloPacket(Box::new(p.duplicate())),
            Packet::TrackRequestPacket(p) => Packet::TrackRequestPacket(Box::new(p.duplicate())),
            Packet::DataPacket(p) => Packet::DataPacket(Box::new(p.duplicate())),
            Packet::MetadataPacket(p) => Packet::MetadataPacket(Box::new(p.duplicate())),
            Packet::ParityPacket(p) => Packet::ParityPacket(Box::new(p.duplicate())),
            Packet::AckPacket(p) => Packet::AckPacket(Box::new(p.duplicate())),
            Packet::RetransmitPacket(p) => Packet::RetransmitPacket(Box::new(p.duplicate())),
            Packet::PlaybackStatusPacket(p) => Packet::PlaybackStatusPacket(Box::new(**p)),
            Packet::IncompatibleVersionPacket(p) => Packet::IncompatibleVersionPacket(Box::new(**p)),
            Packet::SessionDoesNotExistErrorPacket(p) => Packet::SessionDoesNotExistErrorPacket(Box::new(p.duplicate())),
            Packet::UnexpectedPacketErrorPacket(p) => Packet::UnexpectedPacketErrorPacket(Box::new(p.duplicate())),
            Packet::AppRejectErrorPacket(p) => Packet::AppRejectErrorPacket(Box::new(p.duplicate())),
            Packet::KeepAlivePacket(p) => Packet::KeepAlivePacket(Box::new(p.duplicate())),
            Packet::CloseSessionPacket(p) => Packet::CloseSessionPacket(Box::new(p.duplicate())),
            Packet::HandshakeAckPacket(p) => Packet::HandshakeAckPacket(Box::new(p.duplicate())),
            Packet::HandshakeRejection(p) => Packet::HandshakeRejection(Box::new(p.duplicate())),
            Packet::TrackRejectionPacket(p) => Packet::TrackRejectionPacket(Box::new(p.duplicate())),
        }
    }

    /// The packet's options.
    pub open spec fn options(self) -> Options {
        match self {
            Packet::IncompatibleVersionPacket(_) => Options(0),
            Packet::HelloPacket(p) => p.opts,
            Packet::TrackRequestPacket(p) => p.opts,
            Packet::DataPacket(p) => p.opts,
            Packet::MetadataPacket(p) => p.opts,
            Packet::ParityPacket(p) => p.opts,
            Packet::AckPacket(p) => p.opts,
            Packet::RetransmitPacket(p) => p.opts,
            Packet::PlaybackStatusPacket(p) => p.opts,
            Packet::SessionDoesNotExistErrorPacket(p) => p.opts,
            Packet::UnexpectedPacketErrorPacket(p) => p.opts,
            Packet::AppRejectErrorPacket(p) => p.opts,
            Packet::KeepAlivePacket(p) => p.opts,
            Packet::CloseSessionPacket(p) => p.opts,
            Packet::HandshakeAckPacket(p) => p.opts,
            Packet::HandshakeRejection(p) => p.opts,
            Packet::TrackRejectionPacket(p) => p.opts,
        }
    }

    /// The packet's options.
    pub fn opts(&self) -> (r: Options)
        ensures
            r == self.options(),
    {
        match self {
            Packet::IncompatibleVersionPacket(_) => Options::none(),
            Packet::HelloPacket(p) => p.opts,
            Packet::TrackRequestPacket(p) => p.opts,
            Packet::DataPacket(p) => p.opts,
            Packet::MetadataPacket(p) => p.opts,
            Packet::ParityPacket(p) => p.opts,
            Packet::AckPacket(p) => p.opts,
            Packet::RetransmitPacket(p) => p.opts,
            Packet::PlaybackStatusPacket(p) => p.opts,
            Packet::SessionDoesNotExistErrorPacket(p) => p.opts,
            Packet::UnexpectedPacketErrorPacket(p) => p.opts,
            Packet::AppRejectErrorPacket(p) => p.opts,
            Packet::KeepAlivePacket(p) => p.opts,
            Packet::CloseSessionPacket(p) => p.opts,
            Packet::HandshakeAckPacket(p) => p.opts,
            Packet::HandshakeRejection(p) => p.opts,
            Packet::TrackRejectionPacket(p) => p.opts,
        }
    }
}

} // verus!
