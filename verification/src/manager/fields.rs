//! The fields that packets are made of.
use vstd::prelude::*;

use crate::manager::types::Timestamp;
use crate::packet_processor::serialize::Serialize;
use crate::utils;
use crate::utils::Flags;
use crate::wire;

verus! {

/// The most stream bytes one packet carries.
pub const MAX_PAYLOAD_LENGTH: usize = 1384;

/// A position in a stream, in bytes from its start.
#[derive(Debug, Clone, Copy, PartialEq, Eq, Structural)]
pub struct BytePosition(pub u32);

impl Serialize for BytePosition {
    open spec fn image(&self) -> Seq<u8> {
        wire::be32(self.0)
    }

    open spec fn decodes(bytes: Seq<u8>) -> bool {
        bytes.len() >= 4
    }

    open spec fn decoded_from(&self, bytes: Seq<u8>) -> bool {
        self.0 == wire::rd32(bytes, 0)
    }

    open spec fn writable(&self) -> bool {
        true
    }

    proof fn image_decodes(&self) {
        assert(self.image().subrange(0, 4) =~= self.image());
        wire::lemma_rd32(self.image(), 0, self.0);
    }

    fn put(&self, out: &mut Vec<u8>) {
        wire::put_u32(out, self.0);
    }

    fn sized(&self) -> usize {
        4
    }

    fn deserialize(bytes: &[u8]) -> Result<Self, ()> {
        if bytes.len() < 4 {
            Err(())
        } else {
            Ok(BytePosition(wire::get_u32(bytes, 0)))
        }
    }
}

impl Serialize for Timestamp {
    open spec fn image(&self) -> Seq<u8> {
        wire::be64(self.0)
    }

    open spec fn decodes(bytes: Seq<u8>) -> bool {
        bytes.len() >= 8
    }

    open spec fn decoded_from(&self, bytes: Seq<u8>) -> bool {
        self.0 == wire::rd64(bytes, 0)
    }

    open spec fn writable(&self) -> bool {
        true
    }

    proof fn image_decodes(&self) {
        assert(self.image().subrange(0, 8) =~= self.image());
        wire::lemma_rd64(self.image(), 0, self.0);
    }

    fn put(&self, out: &mut Vec<u8>) {
        wire::put_u64(out, self.0);
    }

    fn sized(&self) -> usize {
        8
    }

    fn deserialize(bytes: &[u8]) -> Result<Self, ()> {
        if bytes.len() < 8 {
            Err(())
        } else {
            Ok(Timestamp(wire::get_u64(bytes, 0)))
        }
    }
}

/// A protocol version.
#[derive(Debug, Clone, Copy, PartialEq, Eq, PartialOrd, Ord, Structural)]
pub struct Version(pub u16);

/// The version that this library speaks: 0.0.1.
pub const CURRENT_VERSION: u16 = 1;

/// The oldest version that this library understands: 0.0.1.
pub const MIN_COMPATIBLE_VERSION: u16 = 1;

impl Version {
    /// The packed form: four bits of major, four of minor and eight of patch
    /// number.
    pub open spec fn pack(major: u8, minor: u8, patch: u8) -> u16 {
        ((major as u16) << 12u16) | ((minor as u16) << 8u16) | (patch as u16)
    }

    /// Packs a version.
    pub fn new(major: u8, minor: u8, patch: u8) -> (v: Self)
        ensures
            v.0 == Version::pack(major, minor, patch),
    {
        Version(((major as u16) << 12u16) | ((minor as u16) << 8u16) | (patch as u16))
    }

    /// The version that this library speaks.
    pub fn current() -> (v: Self)
        ensures
            v.0 == CURRENT_VERSION,
    {
        Version(CURRENT_VERSION)
    }

    /// The oldest version that this library understands.
    pub fn min_compatible() -> (v: Self)
        ensures
            v.0 == MIN_COMPATIBLE_VERSION,
    {
        Version(MIN_COMPATIBLE_VERSION)
    }

    /// The major, minor and patch number.
    pub fn parse(&self) -> (r: (u8, u8, u8))
        ensures
            r.0 == self.0 as int / 4096,
            r.1 == self.0 as int / 256 % 16,
            r.2 == self.0 as int % 256,
    {
        let bits: u16 = self.0;
        assert((bits >> 12u16) == bits / 4096 && ((bits >> 8u16) & 0xF) == (bits / 256) % 16 && (bits
            & 0xFF) == bits % 256) by (bit_vector);
        ((bits >> 12u16) as u8, ((bits >> 8u16) & 0xF) as u8, (bits & 0xFF) as u8)
    }

    /// Whether packets of this version are understood.
    pub fn is_compatible(&self) -> (r: bool)
        ensures
            r == (self.0 >= MIN_COMPATIBLE_VERSION),
    {
        self.0 >= MIN_COMPATIBLE_VERSION
    }

    /// Whether this is version zero, which marks an [`IncompatibleVersionPacket`].
    ///
    /// [`IncompatibleVersionPacket`]: crate::manager::packets::IncompatibleVersionPacket
    pub fn is_zero(&self) -> (r: bool)
        ensures
            r == (self.0 == 0),
    {
        self.0 == 0
    }
}

/// Unpacking a packed version gives back its numbers, as long as major and minor
/// fit their four bits.
pub proof fn version_round_trips(major: u8, minor: u8, patch: u8)
    requires
        major < 16,
        minor < 16,
    ensures
        Version::pack(major, minor, patch) as int / 4096 == major,
        Version::pack(major, minor, patch) as int / 256 % 16 == minor,
        Version::pack(major, minor, patch) as int % 256 == patch,
{
    let v = ((major as u16) << 12u16) | ((minor as u16) << 8u16) | (patch as u16);
    assert(v == (major as u16) * 4096 + (minor as u16) * 256 + (patch as u16)) by (bit_vector)
        requires
            v == ((major as u16) << 12u16) | ((minor as u16) << 8u16) | (patch as u16),
            major < 16,
            minor < 16,
    ;
}

impl Serialize for Version {
    open spec fn image(&self) -> Seq<u8> {
        wire::be16(self.0)
    }

    open spec fn decodes(bytes: Seq<u8>) -> bool {
        bytes.len() >= 2
    }

    open spec fn decoded_from(&self, bytes: Seq<u8>) -> bool {
        self.0 == wire::rd16(bytes, 0)
    }

    open spec fn writable(&self) -> bool {
        true
    }

    proof fn image_decodes(&self) {
        assert(self.image().subrange(0, 2) =~= self.image());
        wire::lemma_rd16(self.image(), 0, self.0);
    }

    fn put(&self, out: &mut Vec<u8>) {
        wire::put_u16(out, self.0);
    }

    fn sized(&self) -> usize {
        2
    }

    fn deserialize(bytes: &[u8]) -> Result<Self, ()> {
        if bytes.len() < 2 {
            Err(())
        } else {
            Ok(Version(wire::get_u16(bytes, 0)))
        }
    }
}

/// What kind of packet it is.
#[derive(Debug, Clone, Copy, PartialEq, Eq, Structural)]
pub enum PacketType {
    /// Stream bytes.
    Data,
    /// Bytes about a stream.
    Metadata,
    /// Recovery data for a batch.
    Parity,
    /// An acknowledgement.
    Ack,
    /// A sign of life.
    KeepAlive,
    /// The last step of a handshake.
    HandshakeAck,
    /// Control between hosts, outside any session.
    Host,
    /// Control of a session.
    Session,
    /// Control of a stream.
    Playback,
    /// A complaint about a packet.
    Error,
}

impl PacketType {
    /// The byte on the wire.
    pub open spec fn code(self) -> u8 {
        match self {
            PacketType::Data => 1,
            PacketType::Metadata => 2,
            PacketType::Parity => 3,
            PacketType::Ack => 4,
            PacketType::KeepAlive => 5,
            PacketType::HandshakeAck => 6,
            PacketType::Host => 7,
            PacketType::Session => 8,
            PacketType::Playback => 9,
            PacketType::Error => 10,
        }
    }

    /// The value of a byte on the wire.
    pub open spec fn of_code(code: u8) -> Option<PacketType> {
        match code {
            1 => Some(PacketType::Data),
            2 => Some(PacketType::Metadata),
            3 => Some(PacketType::Parity),
            4 => Some(PacketType::Ack),
            5 => Some(PacketType::KeepAlive),
            6 => Some(PacketType::HandshakeAck),
            7 => Some(PacketType::Host),
            8 => Some(PacketType::Session),
            9 => Some(PacketType::Playback),
            10 => Some(PacketType::Error),
            _ => None,
        }
    }

    /// The byte on the wire.
    pub fn to_code(&self) -> (c: u8)
        ensures
            c == self.code(),
    {
        match self {
            PacketType::Data => 1,
            PacketType::Metadata => 2,
            PacketType::Parity => 3,
            PacketType::Ack => 4,
            PacketType::KeepAlive => 5,
            PacketType::HandshakeAck => 6,
            PacketType::Host => 7,
            PacketType::Session => 8,
            PacketType::Playback => 9,
            PacketType::Error => 10,
        }
    }

    /// The value of a byte on the wire.
    pub fn from_code(code: u8) -> (r: Option<PacketType>)
        ensures
            r == PacketType::of_code(code),
    {
        match code {
            1 => Some(PacketType::Data),
            2 => Some(PacketType::Metadata),
            3 => Some(PacketType::Parity),
            4 => Some(PacketType::Ack),
            5 => Some(PacketType::KeepAlive),
            6 => Some(PacketType::HandshakeAck),
            7 => Some(PacketType::Host),
            8 => Some(PacketType::Session),
            9 => Some(PacketType::Playback),
            10 => Some(PacketType::Error),
            _ => None,
        }
    }
}

impl Serialize for PacketType {
    open spec fn image(&self) -> Seq<u8> {
        seq![self.code()]
    }

    open spec fn decodes(bytes: Seq<u8>) -> bool {
        bytes.len() >= 1 && PacketType::of_code(bytes[0]) is Some
    }

    open spec fn decoded_from(&self, bytes: Seq<u8>) -> bool {
        PacketType::of_code(bytes[0]) == Some(*self)
    }

    open spec fn writable(&self) -> bool {
        true
    }

    proof fn image_decodes(&self) {
    }

    fn put(&self, out: &mut Vec<u8>) {
        out.push(self.to_code());
        assert(out@ =~= old(out)@ + self.image());
    }

    fn sized(&self) -> usize {
        1
    }

    fn deserialize(bytes: &[u8]) -> Result<Self, ()> {
        if bytes.len() < 1 {
            return Err(());
        }
        match PacketType::from_code(bytes[0]) {
            Some(v) => Ok(v),
            None => Err(()),
        }
    }
}

/// Control between hosts.
#[derive(Debug, Clone, Copy, PartialEq, Eq, Structural)]
pub enum HostControlType {
    /// An offer of a session, or its answer.
    Hello,
    /// A refused offer.
    HandshakeRejection,
}

impl HostControlType {
    /// The byte on the wire.
    pub open spec fn code(self) -> u8 {
        match self {
            HostControlType::Hello => 201,
            HostControlType::HandshakeRejection => 202,
        }
    }

    /// The value of a byte on the wire.
    pub open spec fn of_code(code: u8) -> Option<HostControlType> {
        match code {
            201 => Some(HostControlType::Hello),
            202 => Some(HostControlType::HandshakeRejection),
            _ => None,
        }
    }

    /// The byte on the wire.
    pub fn to_code(&self) -> (c: u8)
        ensures
            c == self.code(),
    {
        match self {
            HostControlType::Hello => 201,
            HostControlType::HandshakeRejection => 202,
        }
    }

    /// The value of a byte on the wire.
    pub fn from_code(code: u8) -> (r: Option<HostControlType>)
        ensures
            r == HostControlType::of_code(code),
    {
        match code {
            201 => Some(HostControlType::Hello),
            202 => Some(HostControlType::HandshakeRejection),
            _ => None,
        }
    }
}

impl Serialize for HostControlType {
    open spec fn image(&self) -> Seq<u8> {
        seq![self.code()]
    }

    open spec fn decodes(bytes: Seq<u8>) -> bool {
        bytes.len() >= 1 && HostControlType::of_code(bytes[0]) is Some
    }

    open spec fn decoded_from(&self, bytes: Seq<u8>) -> bool {
        HostControlType::of_code(bytes[0]) == Some(*self)
    }

    open spec fn writable(&self) -> bool {
        true
    }

    proof fn image_decodes(&self) {
    }

    fn put(&self, out: &mut Vec<u8>) {
        out.push(self.to_code());
        assert(out@ =~= old(out)@ + self.image());
    }

    fn sized(&self) -> usize {
        1
    }

    fn deserialize(bytes: &[u8]) -> Result<Self, ()> {
        if bytes.len() < 1 {
            return Err(());
        }
        match HostControlType::from_code(bytes[0]) {
            Some(v) => Ok(v),
            None => Err(()),
        }
    }
}

/// Control of a session.
#[derive(Debug, Clone, Copy, PartialEq, Eq, Structural)]
pub enum SessionControlType {
    /// A request to send ranges again.
    Retransmit,
    /// A request for a stream.
    TrackRequest,
    /// A request for bytes about a stream.
    MetadataRequest,
    /// The end of the session.
    CloseSession,
    /// A refused request for a stream.
    TrackRejection,
}

impl SessionControlType {
    /// The byte on the wire.
    pub open spec fn code(self) -> u8 {
        match self {
            SessionControlType::Retransmit => 1,
            SessionControlType::TrackRequest => 2,
            SessionControlType::MetadataRequest => 3,
            SessionControlType::CloseSession => 4,
            SessionControlType::TrackRejection => 5,
        }
    }

    /// The value of a byte on the wire.
    pub open spec fn of_code(code: u8) -> Option<SessionControlType> {
        match code {
            1 => Some(SessionControlType::Retransmit),
            2 => Some(SessionControlType::TrackRequest),
            3 => Some(SessionControlType::MetadataRequest),
            4 => Some(SessionControlType::CloseSession),
            5 => Some(SessionControlType::TrackRejection),
            _ => None,
        }
    }

    /// The byte on the wire.
    pub fn to_code(&self) -> (c: u8)
        ensures
            c == self.code(),
    {
        match self {
            SessionControlType::Retransmit => 1,
            SessionControlType::TrackRequest => 2,
            SessionControlType::MetadataRequest => 3,
            SessionControlType::CloseSession => 4,
            SessionControlType::TrackRejection => 5,
        }
    }

    /// The value of a byte on the wire.
    pub fn from_code(code: u8) -> (r: Option<SessionControlType>)
        ensures
            r == SessionControlType::of_code(code),
    {
        match code {
            1 => Some(SessionControlType::Retransmit),
            2 => Some(SessionControlType::TrackRequest),
            3 => Some(SessionControlType::MetadataRequest),
            4 => Some(SessionControlType::CloseSession),
            5 => Some(SessionControlType::TrackRejection),
            _ => None,
        }
    }
}

impl Serialize for SessionControlType {
    open spec fn image(&self) -> Seq<u8> {
        seq![self.code()]
    }

    open spec fn decodes(bytes: Seq<u8>) -> bool {
        bytes.len() >= 1 && SessionControlType::of_code(bytes[0]) is Some
    }

    open spec fn decoded_from(&self, bytes: Seq<u8>) -> bool {
        SessionControlType::of_code(bytes[0]) == Some(*self)
    }

    open spec fn writable(&self) -> bool {
        true
    }

    proof fn image_decodes(&self) {
    }

    fn put(&self, out: &mut Vec<u8>) {
        out.push(self.to_code());
        assert(out@ =~= old(out)@ + self.image());
    }

    fn sized(&self) -> usize {
        1
    }

    fn deserialize(bytes: &[u8]) -> Result<Self, ()> {
        if bytes.len() < 1 {
            return Err(());
        }
        match SessionControlType::from_code(bytes[0]) {
            Some(v) => Ok(v),
            None => Err(()),
        }
    }
}

/// Control of a stream.
#[derive(Debug, Clone, Copy, PartialEq, Eq, Structural)]
pub enum PlaybackControlType {
    /// Go on sending.
    Play,
    /// Hold sending.
    Pause,
    /// Close the stream.
    Stop,
    /// The stream has arrived in full.
    Done,
    /// Go on sending from another position.
    Seek,
}

impl PlaybackControlType {
    /// The byte on the wire.
    pub open spec fn code(self) -> u8 {
        match self {
            PlaybackControlType::Play => 101,
            PlaybackControlType::Pause => 102,
            PlaybackControlType::Stop => 103,
            PlaybackControlType::Done => 104,
            PlaybackControlType::Seek => 105,
        }
    }

    /// The value of a byte on the wire.
    pub open spec fn of_code(code: u8) -> Option<PlaybackControlType> {
        match code {
            101 => Some(PlaybackControlType::Play),
            102 => Some(PlaybackControlType::Pause),
            103 => Some(PlaybackControlType::Stop),
            104 => Some(PlaybackControlType::Done),
            105 => Some(PlaybackControlType::Seek),
            _ => None,
        }
    }

    /// The byte on the wire.
    pub fn to_code(&self) -> (c: u8)
        ensures
            c == self.code(),
    {
        match self {
            PlaybackControlType::Play => 101,
            PlaybackControlType::Pause => 102,
            PlaybackControlType::Stop => 103,
            PlaybackControlType::Done => 104,
            PlaybackControlType::Seek => 105,
        }
    }

    /// The value of a byte on the wire.
    pub fn from_code(code: u8) -> (r: Option<PlaybackControlType>)
        ensures
            r == PlaybackControlType::of_code(code),
    {
        match code {
            101 => Some(PlaybackControlType::Play),
            102 => Some(PlaybackControlType::Pause),
            103 => Some(PlaybackControlType::Stop),
            104 => Some(PlaybackControlType::Done),
            105 => Some(PlaybackControlType::Seek),
            _ => None,
        }
    }
}

impl Serialize for PlaybackControlType {
    open spec fn image(&self) -> Seq<u8> {
        seq![self.code()]
    }

    open spec fn decodes(bytes: Seq<u8>) -> bool {
        bytes.len() >= 1 && PlaybackControlType::of_code(bytes[0]) is Some
    }

    open spec fn decoded_from(&self, bytes: Seq<u8>) -> bool {
        PlaybackControlType::of_code(bytes[0]) == Some(*self)
    }

    open spec fn writable(&self) -> bool {
        true
    }

    proof fn image_decodes(&self) {
    }

    fn put(&self, out: &mut Vec<u8>) {
        out.push(self.to_code());
        assert(out@ =~= old(out)@ + self.image());
    }

    fn sized(&self) -> usize {
        1
    }

    fn deserialize(bytes: &[u8]) -> Result<Self, ()> {
        if bytes.len() < 1 {
            return Err(());
        }
        match PlaybackControlType::from_code(bytes[0]) {
            Some(v) => Ok(v),
            None => Err(()),
        }
    }
}

/// What a peer complains about.
#[derive(Debug, Clone, Copy, PartialEq, Eq, Structural)]
pub enum ErrorType {
    /// The application refused.
    AppReject,
    /// The packet made no sense in the current state.
    UnexpectedPacket,
    /// The packet made no sense.
    IncomprehensiblePacket,
    /// The packet was for no session.
    SessionDoesNotExist,
}

impl ErrorType {
    /// The byte on the wire.
    pub open spec fn code(self) -> u8 {
        match self {
            ErrorType::AppReject => 1,
            ErrorType::UnexpectedPacket => 2,
            ErrorType::IncomprehensiblePacket => 3,
            ErrorType::SessionDoesNotExist => 4,
        }
    }

    /// The value of a byte on the wire.
    pub open spec fn of_code(code: u8) -> Option<ErrorType> {
        match code {
            1 => Some(ErrorType::AppReject),
            2 => Some(ErrorType::UnexpectedPacket),
            3 => Some(ErrorType::IncomprehensiblePacket),
            4 => Some(ErrorType::SessionDoesNotExist),
            _ => None,
        }
    }

    /// The byte on the wire.
    pub fn to_code(&self) -> (c: u8)
        ensures
            c == self.code(),
    {
        match self {
            ErrorType::AppReject => 1,
            ErrorType::UnexpectedPacket => 2,
            ErrorType::IncomprehensiblePacket => 3,
            ErrorType::SessionDoesNotExist => 4,
        }
    }

    /// The value of a byte on the wire.
    pub fn from_code(code: u8) -> (r: Option<ErrorType>)
        ensures
            r == ErrorType::of_code(code),
    {
        match code {
            1 => Some(ErrorType::AppReject),
            2 => Some(ErrorType::UnexpectedPacket),
            3 => Some(ErrorType::IncomprehensiblePacket),
            4 => Some(ErrorType::SessionDoesNotExist),
            _ => None,
        }
    }
}

impl Serialize for ErrorType {
    open spec fn image(&self) -> Seq<u8> {
        seq![self.code()]
    }

    open spec fn decodes(bytes: Seq<u8>) -> bool {
        bytes.len() >= 1 && ErrorType::of_code(bytes[0]) is Some
    }

    open spec fn decoded_from(&self, bytes: Seq<u8>) -> bool {
        ErrorType::of_code(bytes[0]) == Some(*self)
    }

    open spec fn writable(&self) -> bool {
        true
    }

    proof fn image_decodes(&self) {
    }

    fn put(&self, out: &mut Vec<u8>) {
        out.push(self.to_code());
        assert(out@ =~= old(out)@ + self.image());
    }

    fn sized(&self) -> usize {
        1
    }

    fn deserialize(bytes: &[u8]) -> Result<Self, ()> {
        if bytes.len() < 1 {
            return Err(());
        }
        match ErrorType::from_code(bytes[0]) {
            Some(v) => Ok(v),
            None => Err(()),
        }
    }
}

/// How recovery data is computed.
#[derive(Debug, Clone, Copy, PartialEq, Eq, Structural)]
pub enum FecScheme {
    /// One exclusive-or of the batch.
    Xor,
    /// Reed-Solomon recovery shards.
    ReedSolomon,
}

impl FecScheme {
    /// The byte on the wire.
    pub open spec fn code(self) -> u8 {
        match self {
            FecScheme::Xor => 0,
            FecScheme::ReedSolomon => 1,
        }
    }

    /// The value of a byte on the wire.
    pub open spec fn of_code(code: u8) -> Option<FecScheme> {
        match code {
            0 => Some(FecScheme::Xor),
            1 => Some(FecScheme::ReedSolomon),
            _ => None,
        }
    }

    /// The byte on the wire.
    pub fn to_code(&self) -> (c: u8)
        ensures
            c == self.code(),
    {
        match self {
            FecScheme::Xor => 0,
            FecScheme::ReedSolomon => 1,
        }
    }

    /// The value of a byte on the wire.
    pub fn from_code(code: u8) -> (r: Option<FecScheme>)
        ensures
            r == FecScheme::of_code(code),
    {
        match code {
            0 => Some(FecScheme::Xor),
            1 => Some(FecScheme::ReedSolomon),
            _ => None,
        }
    }
}

impl Serialize for FecScheme {
    open spec fn image(&self) -> Seq<u8> {
        seq![self.code()]
    }

    open spec fn decodes(bytes: Seq<u8>) -> bool {
        bytes.len() >= 1 && FecScheme::of_code(bytes[0]) is Some
    }

    open spec fn decoded_from(&self, bytes: Seq<u8>) -> bool {
        FecScheme::of_code(bytes[0]) == Some(*self)
    }

    open spec fn writable(&self) -> bool {
        true
    }

    proof fn image_decodes(&self) {
    }

    fn put(&self, out: &mut Vec<u8>) {
        out.push(self.to_code());
        assert(out@ =~= old(out)@ + self.image());
    }

    fn sized(&self) -> usize {
        1
    }

    fn deserialize(bytes: &[u8]) -> Result<Self, ()> {
        if bytes.len() < 1 {
            return Err(());
        }
        match FecScheme::from_code(bytes[0]) {
            Some(v) => Ok(v),
            None => Err(()),
        }
    }
}

/// Why a handshake was refused.
#[derive(Debug, Clone, Copy, PartialEq, Eq, Structural)]
pub enum HandshakeRejectionReason {
    /// The application refused.
    App,
    /// The session id is in use.
    IdCollision,
}

impl HandshakeRejectionReason {
    /// The byte on the wire.
    pub open spec fn code(self) -> u8 {
        match self {
            HandshakeRejectionReason::App => 1,
            HandshakeRejectionReason::IdCollision => 2,
        }
    }

    /// The value of a byte on the wire.
    pub open spec fn of_code(code: u8) -> Option<HandshakeRejectionReason> {
        match code {
            1 => Some(HandshakeRejectionReason::App),
            2 => Some(HandshakeRejectionReason::IdCollision),
            _ => None,
        }
    }

    /// The byte on the wire.
    pub fn to_code(&self) -> (c: u8)
        ensures
            c == self.code(),
    {
        match self {
            HandshakeRejectionReason::App => 1,
            HandshakeRejectionReason::IdCollision => 2,
        }
    }

    /// The value of a byte on the wire.
    pub fn from_code(code: u8) -> (r: Option<HandshakeRejectionReason>)
        ensures
            r == HandshakeRejectionReason::of_code(code),
    {
        match code {
            1 => Some(HandshakeRejectionReason::App),
            2 => Some(HandshakeRejectionReason::IdCollision),
            _ => None,
        }
    }
}

impl Serialize for HandshakeRejectionReason {
    open spec fn image(&self) -> Seq<u8> {
        seq![self.code()]
    }

    open spec fn decodes(bytes: Seq<u8>) -> bool {
        bytes.len() >= 1 && HandshakeRejectionReason::of_code(bytes[0]) is Some
    }

    open spec fn decoded_from(&self, bytes: Seq<u8>) -> bool {
        HandshakeRejectionReason::of_code(bytes[0]) == Some(*self)
    }

    open spec fn writable(&self) -> bool {
        true
    }

    proof fn image_decodes(&self) {
    }

    fn put(&self, out: &mut Vec<u8>) {
        out.push(self.to_code());
        assert(out@ =~= old(out)@ + self.image());
    }

    fn sized(&self) -> usize {
        1
    }

    fn deserialize(bytes: &[u8]) -> Result<Self, ()> {
        if bytes.len() < 1 {
            return Err(());
        }
        match HandshakeRejectionReason::from_code(bytes[0]) {
            Some(v) => Ok(v),
            None => Err(()),
        }
    }
}

/// The control code of a host, session or playback packet.
#[derive(Debug, Clone, Copy, PartialEq, Eq, Structural)]
pub enum ControlType {
    Host(HostControlType),
    Session(SessionControlType),
    Playback(PlaybackControlType),
}

impl ControlType {
    /// The byte on the wire.
    pub open spec fn code(self) -> u8 {
        match self {
            ControlType::Host(t) => t.code(),
            ControlType::Session(t) => t.code(),
            ControlType::Playback(t) => t.code(),
        }
    }

    /// The value of a byte on the wire: the three kinds of code do not overlap.
    pub open spec fn of_code(code: u8) -> Option<ControlType> {
        if HostControlType::of_code(code) is Some {
            Some(ControlType::Host(HostControlType::of_code(code)->0))
        } else if SessionControlType::of_code(code) is Some {
            Some(ControlType::Session(SessionControlType::of_code(code)->0))
        } else if PlaybackControlType::of_code(code) is Some {
            Some(ControlType::Playback(PlaybackControlType::of_code(code)->0))
        } else {
            None
        }
    }

    /// The byte on the wire.
    pub fn to_code(&self) -> (c: u8)
        ensures
            c == self.code(),
    {
        match self {
            ControlType::Host(t) => t.to_code(),
            ControlType::Session(t) => t.to_code(),
            ControlType::Playback(t) => t.to_code(),
        }
    }

    /// The value of a byte on the wire.
    pub fn from_code(code: u8) -> (r: Option<ControlType>)
        ensures
            r == ControlType::of_code(code),
    {
        match HostControlType::from_code(code) {
            Some(t) => Some(ControlType::Host(t)),
            None => match SessionControlType::from_code(code) {
                Some(t) => Some(ControlType::Session(t)),
                None => match PlaybackControlType::from_code(code) {
                    Some(t) => Some(ControlType::Playback(t)),
                    None => None,
                },
            },
        }
    }
}

impl Serialize for ControlType {
    open spec fn image(&self) -> Seq<u8> {
        seq![self.code()]
    }

    open spec fn decodes(bytes: Seq<u8>) -> bool {
        bytes.len() >= 1 && ControlType::of_code(bytes[0]) is Some
    }

    open spec fn decoded_from(&self, bytes: Seq<u8>) -> bool {
        ControlType::of_code(bytes[0]) == Some(*self)
    }

    open spec fn writable(&self) -> bool {
        true
    }

    proof fn image_decodes(&self) {
    }

    fn put(&self, out: &mut Vec<u8>) {
        out.push(self.to_code());
        assert(out@ =~= old(out)@ + self.image());
    }

    fn sized(&self) -> usize {
        1
    }

    fn deserialize(bytes: &[u8]) -> Result<Self, ()> {
        if bytes.len() < 1 {
            return Err(());
        }
        match ControlType::from_code(bytes[0]) {
            Some(v) => Ok(v),
            None => Err(()),
        }
    }
}

/// The control or error code of a packet that is complained about; zero if it had
/// none.
#[derive(Debug, Clone, Copy, PartialEq, Eq, Structural)]
pub struct SecondaryType(pub u16);

impl SecondaryType {
    /// No code.
    pub fn none() -> (r: Self)
        ensures
            r.0 == 0,
    {
        SecondaryType(0)
    }

    /// A control code: its byte, then a zero.
    pub fn from_control(value: ControlType) -> (r: Self)
        ensures
            wire::be16(r.0) == seq![value.code(), 0u8],
    {
        let r = SecondaryType(value.to_code() as u16 * 0x100);
        assert(wire::be16(r.0) =~= seq![value.code(), 0u8]);
        r
    }

    /// An error code: its byte, then a zero.
    pub fn from_error(value: ErrorType) -> (r: Self)
        ensures
            wire::be16(r.0) == seq![value.code(), 0u8],
    {
        let r = SecondaryType(value.to_code() as u16 * 0x100);
        assert(wire::be16(r.0) =~= seq![value.code(), 0u8]);
        r
    }
}

impl Serialize for SecondaryType {
    open spec fn image(&self) -> Seq<u8> {
        wire::be16(self.0)
    }

    open spec fn decodes(bytes: Seq<u8>) -> bool {
        bytes.len() >= 2
    }

    open spec fn decoded_from(&self, bytes: Seq<u8>) -> bool {
        self.0 == wire::rd16(bytes, 0)
    }

    open spec fn writable(&self) -> bool {
        true
    }

    proof fn image_decodes(&self) {
        assert(self.image().subrange(0, 2) =~= self.image());
        wire::lemma_rd16(self.image(), 0, self.0);
    }

    fn put(&self, out: &mut Vec<u8>) {
        wire::put_u16(out, self.0);
    }

    fn sized(&self) -> usize {
        2
    }

    fn deserialize(bytes: &[u8]) -> Result<Self, ()> {
        if bytes.len() < 2 {
            Err(())
        } else {
            Ok(SecondaryType(wire::get_u16(bytes, 0)))
        }
    }
}

/// The id of a batch of packets that share recovery data. Never zero.
#[derive(Debug, Clone, Copy, PartialEq, Eq, Structural)]
pub struct BatchID(pub u16);

impl BatchID {
    /// The batch id `id`.
    pub fn new(id: u16) -> (b: Self)
        requires
            id != 0,
        ensures
            b.0 == id,
    {
        BatchID(id)
    }
}

impl Serialize for BatchID {
    open spec fn image(&self) -> Seq<u8> {
        wire::be16(self.0)
    }

    open spec fn decodes(bytes: Seq<u8>) -> bool {
        bytes.len() >= 2
    }

    open spec fn decoded_from(&self, bytes: Seq<u8>) -> bool {
        self.0 == wire::rd16(bytes, 0)
    }

    open spec fn writable(&self) -> bool {
        true
    }

    proof fn image_decodes(&self) {
        assert(self.image().subrange(0, 2) =~= self.image());
        wire::lemma_rd16(self.image(), 0, self.0);
    }

    fn put(&self, out: &mut Vec<u8>) {
        wire::put_u16(out, self.0);
    }

    fn sized(&self) -> usize {
        2
    }

    fn deserialize(bytes: &[u8]) -> Result<Self, ()> {
        if bytes.len() < 2 {
            Err(())
        } else {
            Ok(BatchID(wire::get_u16(bytes, 0)))
        }
    }
}

/// The id of a buffer of metadata. Never zero.
#[derive(Debug, Clone, Copy, PartialEq, Eq, Structural)]
pub struct BufferId(pub u16);

impl BufferId {
    /// The buffer id `id`.
    pub fn new(id: u16) -> (b: Self)
        requires
            id != 0,
        ensures
            b.0 == id,
    {
        BufferId(id)
    }
}

impl Serialize for BufferId {
    open spec fn image(&self) -> Seq<u8> {
        wire::be16(self.0)
    }

    open spec fn decodes(bytes: Seq<u8>) -> bool {
        bytes.len() >= 2
    }

    open spec fn decoded_from(&self, bytes: Seq<u8>) -> bool {
        self.0 == wire::rd16(bytes, 0)
    }

    open spec fn writable(&self) -> bool {
        true
    }

    proof fn image_decodes(&self) {
        assert(self.image().subrange(0, 2) =~= self.image());
        wire::lemma_rd16(self.image(), 0, self.0);
    }

    fn put(&self, out: &mut Vec<u8>) {
        wire::put_u16(out, self.0);
    }

    fn sized(&self) -> usize {
        2
    }

    fn deserialize(bytes: &[u8]) -> Result<Self, ()> {
        if bytes.len() < 2 {
            Err(())
        } else {
            Ok(BufferId(wire::get_u16(bytes, 0)))
        }
    }
}

/// The size of a buffer of metadata: less than ten mebibytes.
#[derive(Debug, Clone, Copy, PartialEq, Eq, Structural)]
pub struct BufferSize(pub u32);

/// The size that no metadata buffer reaches.
pub const MAX_BUFFER_SIZE: u32 = 10 * 1024 * 1024;

impl BufferSize {
    /// The buffer size `size`.
    pub fn new(size: u32) -> (b: Self)
        requires
            size < MAX_BUFFER_SIZE,
        ensures
            b.0 == size,
    {
        BufferSize(size)
    }
}

impl Serialize for BufferSize {
    open spec fn image(&self) -> Seq<u8> {
        wire::be32(self.0)
    }

    open spec fn decodes(bytes: Seq<u8>) -> bool {
        bytes.len() >= 4
    }

    open spec fn decoded_from(&self, bytes: Seq<u8>) -> bool {
        self.0 == wire::rd32(bytes, 0)
    }

    open spec fn writable(&self) -> bool {
        true
    }

    proof fn image_decodes(&self) {
        assert(self.image().subrange(0, 4) =~= self.image());
        wire::lemma_rd32(self.image(), 0, self.0);
    }

    fn put(&self, out: &mut Vec<u8>) {
        wire::put_u32(out, self.0);
    }

    fn sized(&self) -> usize {
        4
    }

    fn deserialize(bytes: &[u8]) -> Result<Self, ()> {
        if bytes.len() < 4 {
            Err(())
        } else {
            Ok(BufferSize(wire::get_u32(bytes, 0)))
        }
    }
}

/// The id of a session, drawn at random.
#[derive(Debug, Clone, Copy, PartialEq, Eq, Structural)]
pub struct SessionId(pub u64);

impl SessionId {
    /// The session id `id`.
    pub fn new(id: u64) -> (s: Self)
        ensures
            s.0 == id,
    {
        SessionId(id)
    }
}

impl Serialize for SessionId {
    open spec fn image(&self) -> Seq<u8> {
        wire::be64(self.0)
    }

    open spec fn decodes(bytes: Seq<u8>) -> bool {
        bytes.len() >= 8
    }

    open spec fn decoded_from(&self, bytes: Seq<u8>) -> bool {
        self.0 == wire::rd64(bytes, 0)
    }

    open spec fn writable(&self) -> bool {
        true
    }

    proof fn image_decodes(&self) {
        assert(self.image().subrange(0, 8) =~= self.image());
        wire::lemma_rd64(self.image(), 0, self.0);
    }

    fn put(&self, out: &mut Vec<u8>) {
        wire::put_u64(out, self.0);
    }

    fn sized(&self) -> usize {
        8
    }

    fn deserialize(bytes: &[u8]) -> Result<Self, ()> {
        if bytes.len() < 8 {
            Err(())
        } else {
            Ok(SessionId(wire::get_u64(bytes, 0)))
        }
    }
}

/// The id of a handshake, drawn at random. Never zero.
#[derive(Debug, Clone, Copy, PartialEq, Eq, Structural)]
pub struct HandshakeId(pub u32);

impl Serialize for HandshakeId {
    open spec fn image(&self) -> Seq<u8> {
        wire::be32(self.0)
    }

    open spec fn decodes(bytes: Seq<u8>) -> bool {
        bytes.len() >= 4
    }

    open spec fn decoded_from(&self, bytes: Seq<u8>) -> bool {
        self.0 == wire::rd32(bytes, 0)
    }

    open spec fn writable(&self) -> bool {
        true
    }

    proof fn image_decodes(&self) {
        assert(self.image().subrange(0, 4) =~= self.image());
        wire::lemma_rd32(self.image(), 0, self.0);
    }

    fn put(&self, out: &mut Vec<u8>) {
        wire::put_u32(out, self.0);
    }

    fn sized(&self) -> usize {
        4
    }

    fn deserialize(bytes: &[u8]) -> Result<Self, ()> {
        if bytes.len() < 4 {
            Err(())
        } else {
            Ok(HandshakeId(wire::get_u32(bytes, 0)))
        }
    }
}

/// A UDP port.
#[derive(Debug, Clone, Copy, PartialEq, Eq, Structural)]
pub struct Port(pub u16);

impl Port {
    /// The port `port`.
    pub fn new(port: u16) -> (p: Self)
        ensures
            p.0 == port,
    {
        Port(port)
    }
}

impl Serialize for Port {
    open spec fn image(&self) -> Seq<u8> {
        wire::be16(self.0)
    }

    open spec fn decodes(bytes: Seq<u8>) -> bool {
        bytes.len() >= 2
    }

    open spec fn decoded_from(&self, bytes: Seq<u8>) -> bool {
        self.0 == wire::rd16(bytes, 0)
    }

    open spec fn writable(&self) -> bool {
        true
    }

    proof fn image_decodes(&self) {
        assert(self.image().subrange(0, 2) =~= self.image());
        wire::lemma_rd16(self.image(), 0, self.0);
    }

    fn put(&self, out: &mut Vec<u8>) {
        wire::put_u16(out, self.0);
    }

    fn sized(&self) -> usize {
        2
    }

    fn deserialize(bytes: &[u8]) -> Result<Self, ()> {
        if bytes.len() < 2 {
            Err(())
        } else {
            Ok(Port(wire::get_u16(bytes, 0)))
        }
    }
}

/// The options of a packet.
#[derive(Debug, Clone, Copy, PartialEq, Eq, Structural)]
pub struct Options(pub u16);

/// One option of a packet.
#[derive(Debug, Clone, Copy, PartialEq, Eq, Structural)]
pub enum OptionFlags {
    /// The packet must be acknowledged.
    RequireAck,
    /// The packet is about metadata.
    Metadata,
}

impl OptionFlags {
    /// The flag's bit.
    pub open spec fn spec_mask(self) -> u16 {
        match self {
            OptionFlags::RequireAck => 1,
            OptionFlags::Metadata => 2,
        }
    }

    /// The flag's bit.
    pub fn to_mask(&self) -> (m: u16)
        ensures
            m == self.spec_mask(),
    {
        match self {
            OptionFlags::RequireAck => 1,
            OptionFlags::Metadata => 2,
        }
    }
}

impl Flags for Options {
    type FlagType = OptionFlags;

    open spec fn bits(&self) -> u32 {
        self.0 as u32
    }

    open spec fn mask(flag: OptionFlags) -> u32 {
        flag.spec_mask() as u32
    }

    open spec fn union_of(flags: Seq<OptionFlags>) -> u32
        decreases flags.len(),
    {
        if flags.len() == 0 {
            0
        } else {
            Self::union_of(flags.drop_last()) | Self::mask(flags.last())
        }
    }

    fn construct(flags: &[OptionFlags]) -> (r: Self) {
        let mut bits: u16 = 0;
        let mut i: usize = 0;
        while i < flags.len()
            invariant
                i <= flags.len(),
                bits as u32 == Self::union_of(flags@.take(i as int)),
            decreases flags.len() - i,
        {
            let mask: u16 = flags[i].to_mask();
            let ghost before = bits;
            bits = bits | mask;
            i += 1;
            assert(flags@.take(i as int).drop_last() =~= flags@.take(i - 1));
            assert((before | mask) as u32 == (before as u32) | (mask as u32)) by (bit_vector);
        }
        assert(flags@.take(i as int) =~= flags@);
        Options(bits)
    }

    fn deconstruct(self) -> (r: Vec<OptionFlags>) {
        let mut r: Vec<OptionFlags> = Vec::new();
        if self.contains(OptionFlags::RequireAck) {
            r.push(OptionFlags::RequireAck);
        }
        let ghost after_requireack = r@;
        if self.contains(OptionFlags::Metadata) {
            r.push(OptionFlags::Metadata);
        }
        let ghost after_metadata = r@;
        assert forall|f: OptionFlags| r@.contains(f) <==> self.bits() & Self::mask(f) != 0 by {
            if f == OptionFlags::RequireAck && self.bits() & Self::mask(f) != 0 {
                assert(after_requireack.last() == f);
                assert(r@[after_requireack.len() - 1] == f);
            }
            if f == OptionFlags::Metadata && self.bits() & Self::mask(f) != 0 {
                assert(after_metadata.last() == f);
                assert(r@[after_metadata.len() - 1] == f);
            }
        }
        r
    }

    fn none() -> (r: Self) {
        Options(0)
    }

    fn set(self, flag: OptionFlags) -> (r: Self) {
        let bits: u16 = self.0;
        let mask: u16 = flag.to_mask();
        assert((bits | mask) as u32 == (bits as u32) | (mask as u32)) by (bit_vector);
        Options(bits | mask)
    }

    fn unset(self, flag: OptionFlags) -> (r: Self) {
        let bits: u16 = self.0;
        let mask: u16 = flag.to_mask();
        assert((bits & !mask) as u32 == (bits as u32) & !(mask as u32)) by (bit_vector);
        Options(bits & !mask)
    }

    fn contains(&self, flag: OptionFlags) -> (r: bool) {
        let bits: u16 = self.0;
        let mask: u16 = flag.to_mask();
        assert((bits & mask) as u32 == (bits as u32) & (mask as u32)) by (bit_vector);
        bits & mask != 0
    }
}

impl Serialize for Options {
    open spec fn image(&self) -> Seq<u8> {
        wire::be16(self.0)
    }

    open spec fn decodes(bytes: Seq<u8>) -> bool {
        bytes.len() >= 2
    }

    open spec fn decoded_from(&self, bytes: Seq<u8>) -> bool {
        self.0 == wire::rd16(bytes, 0)
    }

    open spec fn writable(&self) -> bool {
        true
    }

    proof fn image_decodes(&self) {
        assert(self.image().subrange(0, 2) =~= self.image());
        wire::lemma_rd16(self.image(), 0, self.0);
    }

    fn put(&self, out: &mut Vec<u8>) {
        wire::put_u16(out, self.0);
    }

    fn sized(&self) -> usize {
        2
    }

    fn deserialize(bytes: &[u8]) -> Result<Self, ()> {
        if bytes.len() < 2 {
            Err(())
        } else {
            Ok(Options(wire::get_u16(bytes, 0)))
        }
    }
}

/// What an application asked of the protocol.
#[derive(Debug, Clone, Copy, PartialEq, Eq, Structural)]
pub struct AppOptions(pub u32);

/// One thing that an application asks of the protocol.
#[derive(Debug, Clone, Copy, PartialEq, Eq, Structural)]
pub enum AppOptionFlag {
    /// Accept every peer application.
    ApproveAllApps,
}

impl AppOptionFlag {
    /// The flag's bit.
    pub open spec fn spec_mask(self) -> u32 {
        match self {
            AppOptionFlag::ApproveAllApps => 1,
        }
    }

    /// The flag's bit.
    pub fn to_mask(&self) -> (m: u32)
        ensures
            m == self.spec_mask(),
    {
        match self {
            AppOptionFlag::ApproveAllApps => 1,
        }
    }
}

impl Flags for AppOptions {
    type FlagType = AppOptionFlag;

    open spec fn bits(&self) -> u32 {
        self.0 as u32
    }

    open spec fn mask(flag: AppOptionFlag) -> u32 {
        flag.spec_mask() as u32
    }

    open spec fn union_of(flags: Seq<AppOptionFlag>) -> u32
        decreases flags.len(),
    {
        if flags.len() == 0 {
            0
        } else {
            Self::union_of(flags.drop_last()) | Self::mask(flags.last())
        }
    }

    fn construct(flags: &[AppOptionFlag]) -> (r: Self) {
        let mut bits: u32 = 0;
        let mut i: usize = 0;
        while i < flags.len()
            invariant
                i <= flags.len(),
                bits as u32 == Self::union_of(flags@.take(i as int)),
            decreases flags.len() - i,
        {
            let mask: u32 = flags[i].to_mask();
            let ghost before = bits;
            bits = bits | mask;
            i += 1;
            assert(flags@.take(i as int).drop_last() =~= flags@.take(i - 1));
            assert((before | mask) as u32 == (before as u32) | (mask as u32)) by (bit_vector);
        }
        assert(flags@.take(i as int) =~= flags@);
        AppOptions(bits)
    }

    fn deconstruct(self) -> (r: Vec<AppOptionFlag>) {
        let mut r: Vec<AppOptionFlag> = Vec::new();
        if self.contains(AppOptionFlag::ApproveAllApps) {
            r.push(AppOptionFlag::ApproveAllApps);
        }
        let ghost after_approveallapps = r@;
        assert forall|f: AppOptionFlag| r@.contains(f) <==> self.bits() & Self::mask(f) != 0 by {
            if f == AppOptionFlag::ApproveAllApps && self.bits() & Self::mask(f) != 0 {
                assert(after_approveallapps.last() == f);
                assert(r@[after_approveallapps.len() - 1] == f);
            }
        }
        r
    }

    fn none() -> (r: Self) {
        AppOptions(0)
    }

    fn set(self, flag: AppOptionFlag) -> (r: Self) {
        let bits: u32 = self.0;
        let mask: u32 = flag.to_mask();
        assert((bits | mask) as u32 == (bits as u32) | (mask as u32)) by (bit_vector);
        AppOptions(bits | mask)
    }

    fn unset(self, flag: AppOptionFlag) -> (r: Self) {
        let bits: u32 = self.0;
        let mask: u32 = flag.to_mask();
        assert((bits & !mask) as u32 == (bits as u32) & !(mask as u32)) by (bit_vector);
        AppOptions(bits & !mask)
    }

    fn contains(&self, flag: AppOptionFlag) -> (r: bool) {
        let bits: u32 = self.0;
        let mask: u32 = flag.to_mask();
        assert((bits & mask) as u32 == (bits as u32) & (mask as u32)) by (bit_vector);
        bits & mask != 0
    }
}

/// What a session is busy with.
#[derive(Debug, Clone, Copy, PartialEq, Eq, Structural)]
pub struct SessionStateFlags(pub u32);

/// One thing that a session is busy with.
#[derive(Debug, Clone, Copy, PartialEq, Eq, Structural)]
pub enum SessionStateFlag {
    /// The handshake.
    Handshake,
    /// Receiving a stream.
    CurrentlyStreamingFrom,
    /// Sending a stream.
    CurrentlyStreamingTo,
}

impl SessionStateFlag {
    /// The flag's bit.
    pub open spec fn spec_mask(self) -> u32 {
        match self {
            SessionStateFlag::Handshake => 2,
            SessionStateFlag::CurrentlyStreamingFrom => 32,
            SessionStateFlag::CurrentlyStreamingTo => 64,
        }
    }

    /// The flag's bit.
    pub fn to_mask(&self) -> (m: u32)
        ensures
            m == self.spec_mask(),
    {
        match self {
            SessionStateFlag::Handshake => 2,
            SessionStateFlag::CurrentlyStreamingFrom => 32,
            SessionStateFlag::CurrentlyStreamingTo => 64,
        }
    }
}

impl Flags for SessionStateFlags {
    type FlagType = SessionStateFlag;

    open spec fn bits(&self) -> u32 {
        self.0 as u32
    }

    open spec fn mask(flag: SessionStateFlag) -> u32 {
        flag.spec_mask() as u32
    }

    open spec fn union_of(flags: Seq<SessionStateFlag>) -> u32
        decreases flags.len(),
    {
        if flags.len() == 0 {
            0
        } else {
            Self::union_of(flags.drop_last()) | Self::mask(flags.last())
        }
    }

    fn construct(flags: &[SessionStateFlag]) -> (r: Self) {
        let mut bits: u32 = 0;
        let mut i: usize = 0;
        while i < flags.len()
            invariant
                i <= flags.len(),
                bits as u32 == Self::union_of(flags@.take(i as int)),
            decreases flags.len() - i,
        {
            let mask: u32 = flags[i].to_mask();
            let ghost before = bits;
            bits = bits | mask;
            i += 1;
            assert(flags@.take(i as int).drop_last() =~= flags@.take(i - 1));
            assert((before | mask) as u32 == (before as u32) | (mask as u32)) by (bit_vector);
        }
        assert(flags@.take(i as int) =~= flags@);
        SessionStateFlags(bits)
    }

    fn deconstruct(self) -> (r: Vec<SessionStateFlag>) {
        let mut r: Vec<SessionStateFlag> = Vec::new();
        if self.contains(SessionStateFlag::Handshake) {
            r.push(SessionStateFlag::Handshake);
        }
        let ghost after_handshake = r@;
        if self.contains(SessionStateFlag::CurrentlyStreamingFrom) {
            r.push(SessionStateFlag::CurrentlyStreamingFrom);
        }
        let ghost after_currentlystreamingfrom = r@;
        if self.contains(SessionStateFlag::CurrentlyStreamingTo) {
            r.push(SessionStateFlag::CurrentlyStreamingTo);
        }
        let ghost after_currentlystreamingto = r@;
        assert forall|f: SessionStateFlag| r@.contains(f) <==> self.bits() & Self::mask(f) != 0 by {
            if f == SessionStateFlag::Handshake && self.bits() & Self::mask(f) != 0 {
                assert(after_handshake.last() == f);
                assert(r@[after_handshake.len() - 1] == f);
            }
            if f == SessionStateFlag::CurrentlyStreamingFrom && self.bits() & Self::mask(f) != 0 {
                assert(after_currentlystreamingfrom.last() == f);
                assert(r@[after_currentlystreamingfrom.len() - 1] == f);
            }
            if f == SessionStateFlag::CurrentlyStreamingTo && self.bits() & Self::mask(f) != 0 {
                assert(after_currentlystreamingto.last() == f);
                assert(r@[after_currentlystreamingto.len() - 1] == f);
            }
        }
        r
    }

    fn none() -> (r: Self) {
        SessionStateFlags(0)
    }

    fn set(self, flag: SessionStateFlag) -> (r: Self) {
        let bits: u32 = self.0;
        let mask: u32 = flag.to_mask();
        assert((bits | mask) as u32 == (bits as u32) | (mask as u32)) by (bit_vector);
        SessionStateFlags(bits | mask)
    }

    fn unset(self, flag: SessionStateFlag) -> (r: Self) {
        let bits: u32 = self.0;
        let mask: u32 = flag.to_mask();
        assert((bits & !mask) as u32 == (bits as u32) & !(mask as u32)) by (bit_vector);
        SessionStateFlags(bits & !mask)
    }

    fn contains(&self, flag: SessionStateFlag) -> (r: bool) {
        let bits: u32 = self.0;
        let mask: u32 = flag.to_mask();
        assert((bits & mask) as u32 == (bits as u32) & (mask as u32)) by (bit_vector);
        bits & mask != 0
    }
}

impl Serialize for SessionStateFlags {
    open spec fn image(&self) -> Seq<u8> {
        wire::be32(self.0)
    }

    open spec fn decodes(bytes: Seq<u8>) -> bool {
        bytes.len() >= 4
    }

    open spec fn decoded_from(&self, bytes: Seq<u8>) -> bool {
        self.0 == wire::rd32(bytes, 0)
    }

    open spec fn writable(&self) -> bool {
        true
    }

    proof fn image_decodes(&self) {
        assert(self.image().subrange(0, 4) =~= self.image());
        wire::lemma_rd32(self.image(), 0, self.0);
    }

    fn put(&self, out: &mut Vec<u8>) {
        wire::put_u32(out, self.0);
    }

    fn sized(&self) -> usize {
        4
    }

    fn deserialize(bytes: &[u8]) -> Result<Self, ()> {
        if bytes.len() < 4 {
            Err(())
        } else {
            Ok(SessionStateFlags(wire::get_u32(bytes, 0)))
        }
    }
}

/// Every code stands for one thing and every thing has one code. The codes of what the host,
/// the session and the playback are told do not overlap, so that a code says which of the
/// three it is for.
pub proof fn codes_are_unambiguous(
    code: u8,
    kind: PacketType,
    control: ControlType,
    error: ErrorType,
    scheme: FecScheme,
    reason: HandshakeRejectionReason,
)
    ensures
        PacketType::of_code(code) is Some <==> 1 <= code <= 10,
        PacketType::of_code(kind.code()) == Some(kind),
        PacketType::of_code(code) == Some(kind) ==> kind.code() == code,
        ControlType::of_code(control.code()) == Some(control),
        ControlType::of_code(code) == Some(control) ==> control.code() == code,
        (ControlType::of_code(code) matches Some(c) && c is Session) <==> 1 <= code <= 5,
        (ControlType::of_code(code) matches Some(c) && c is Playback) <==> 101 <= code <= 105,
        (ControlType::of_code(code) matches Some(c) && c is Host) <==> 201 <= code <= 202,
        ErrorType::of_code(code) is Some <==> 1 <= code <= 4,
        ErrorType::of_code(error.code()) == Some(error),
        FecScheme::of_code(code) is Some <==> code <= 1,
        FecScheme::of_code(scheme.code()) == Some(scheme),
        HandshakeRejectionReason::of_code(code) is Some <==> 1 <= code <= 2,
        HandshakeRejectionReason::of_code(reason.code()) == Some(reason),
        kind == PacketType::Data <==> kind.code() == 1,
        kind == PacketType::Parity <==> kind.code() == 3,
        kind == PacketType::Ack <==> kind.code() == 4,
        kind == PacketType::Error <==> kind.code() == 10,
{
}

/// Each option of a packet has a bit to itself.
pub proof fn options_have_bits_of_their_own(flag: OptionFlags, other: OptionFlags)
    ensures
        Options::mask(flag) != 0,
        flag != other ==> Options::mask(flag) & Options::mask(other) == 0,
        Options::mask(flag) & 0 == 0,
{
    assert(1u32 & 2 == 0 && 2u32 & 1 == 0) by (bit_vector);
    let mask = Options::mask(flag);
    assert(mask & 0 == 0) by (bit_vector);
}

/// Options made of some flags hold those and no others.
pub proof fn options_are_what_they_are_made_of(flags: Seq<OptionFlags>, flag: OptionFlags)
    ensures
        Options::union_of(flags) & Options::mask(flag) != 0 <==> flags.contains(flag),
    decreases flags.len(),
{
    if flags.len() == 0 {
        let mask = Options::mask(flag);
        assert(0u32 & mask == 0) by (bit_vector);
    } else {
        let rest = flags.drop_last();
        let last = flags.last();
        options_are_what_they_are_made_of(rest, flag);
        options_have_bits_of_their_own(last, flag);
        if last == flag {
            assert(flags[flags.len() - 1] == flag);
            utils::flags_are_independent(Options::union_of(rest), Options::mask(last), 0);
        } else {
            utils::flags_are_independent(Options::union_of(rest), Options::mask(last), Options::mask(flag));
            if rest.contains(flag) {
                let i = rest.index_of(flag);
                assert(flags[i] == flag);
            }
            if flags.contains(flag) {
                let i = flags.index_of(flag);
                assert(rest[i] == flag);
            }
        }
    }
}

/// What an application asks for has a bit to itself.
pub proof fn app_options_have_bits_of_their_own(flag: AppOptionFlag, other: AppOptionFlag)
    ensures
        AppOptions::mask(flag) != 0,
        flag != other ==> AppOptions::mask(flag) & AppOptions::mask(other) == 0,
        AppOptions::mask(flag) & 0 == 0,
{
    let mask = AppOptions::mask(flag);
    assert(mask & 0 == 0) by (bit_vector);
}

/// What an application asks for with some flags is those and no others.
pub proof fn app_options_are_what_they_are_made_of(flags: Seq<AppOptionFlag>, flag: AppOptionFlag)
    ensures
        AppOptions::union_of(flags) & AppOptions::mask(flag) != 0 <==> flags.contains(flag),
    decreases flags.len(),
{
    if flags.len() == 0 {
        let mask = AppOptions::mask(flag);
        assert(0u32 & mask == 0) by (bit_vector);
    } else {
        let rest = flags.drop_last();
        let last = flags.last();
        app_options_are_what_they_are_made_of(rest, flag);
        app_options_have_bits_of_their_own(last, flag);
        if last == flag {
            assert(flags[flags.len() - 1] == flag);
            utils::flags_are_independent(AppOptions::union_of(rest), AppOptions::mask(last), 0);
        } else {
            utils::flags_are_independent(AppOptions::union_of(rest), AppOptions::mask(last), AppOptions::mask(flag));
            if rest.contains(flag) {
                let i = rest.index_of(flag);
                assert(flags[i] == flag);
            }
            if flags.contains(flag) {
                let i = flags.index_of(flag);
                assert(rest[i] == flag);
            }
        }
    }
}

/// Each part of the state of a session has a bit to itself.
pub proof fn states_have_bits_of_their_own(flag: SessionStateFlag, other: SessionStateFlag)
    ensures
        SessionStateFlags::mask(flag) != 0,
        flag != other ==> SessionStateFlags::mask(flag) & SessionStateFlags::mask(other) == 0,
        SessionStateFlags::mask(flag) & 0 == 0,
{
    assert(2u32 & 32 == 0 && 2u32 & 64 == 0 && 32u32 & 64 == 0 && 32u32 & 2 == 0 && 64u32 & 2 == 0
        && 64u32 & 32 == 0) by (bit_vector);
    let mask = SessionStateFlags::mask(flag);
    assert(mask & 0 == 0) by (bit_vector);
}

/// A state made of some flags holds those and no others.
pub proof fn states_are_what_they_are_made_of(flags: Seq<SessionStateFlag>, flag: SessionStateFlag)
    ensures
        SessionStateFlags::union_of(flags) & SessionStateFlags::mask(flag) != 0 <==> flags.contains(flag),
    decreases flags.len(),
{
    if flags.len() == 0 {
        let mask = SessionStateFlags::mask(flag);
        assert(0u32 & mask == 0) by (bit_vector);
    } else {
        let rest = flags.drop_last();
        let last = flags.last();
        states_are_what_they_are_made_of(rest, flag);
        states_have_bits_of_their_own(last, flag);
        if last == flag {
            assert(flags[flags.len() - 1] == flag);
            utils::flags_are_independent(SessionStateFlags::union_of(rest), SessionStateFlags::mask(last), 0);
        } else {
            utils::flags_are_independent(SessionStateFlags::union_of(rest), SessionStateFlags::mask(last), SessionStateFlags::mask(flag));
            if rest.contains(flag) {
                let i = rest.index_of(flag);
                assert(flags[i] == flag);
            }
            if flags.contains(flag) {
                let i = flags.index_of(flag);
                assert(rest[i] == flag);
            }
        }
    }
}

} // verus!
