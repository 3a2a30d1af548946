//! The wire images of the protocol's packets.
use vstd::prelude::*;

use crate::manager::fields::{
    BatchID, BufferId, BufferSize, BytePosition, ControlType, ErrorType, HandshakeId,
    HandshakeRejectionReason, Options, PacketType, Port, SecondaryType, SessionId, Version,
};
use crate::manager::header;
use crate::manager::identity::{AppId, PacketFingerprint, PublicKey, Reserved};
use crate::manager::ranges;
use crate::manager::ranges::{ByteRange, FECInfo};
use crate::manager::types::Timestamp;
use crate::manager::views;
use crate::packet_processor::fingerprint::{Headers, Payload};
use crate::packet_processor::serialize::Serialize;
use crate::wire;

verus! {

/// An optional buffer id on the wire: zero for none.
pub open spec fn buffer_code(id: Option<BufferId>) -> u16 {
    match id {
        Some(b) => b.0,
        None => 0,
    }
}

/// The optional buffer id of two bytes on the wire.
pub open spec fn buffer_of_code(code: u16) -> Option<BufferId> {
    if code == 0 {
        None
    } else {
        Some(BufferId(code))
    }
}

fn buffer_to_code(id: Option<BufferId>) -> (c: u16)
    ensures
        c == buffer_code(id),
{
    match id {
        Some(b) => b.0,
        None => 0,
    }
}

fn buffer_from_code(code: u16) -> (r: Option<BufferId>)
    ensures
        r == buffer_of_code(code),
{
    if code == 0 {
        None
    } else {
        Some(BufferId(code))
    }
}

/// Another copy of a list of ranges.
pub fn copy_ranges(ranges: &Vec<ByteRange>) -> (r: Vec<ByteRange>)
    ensures
        r@ == ranges@,
{
    let mut r: Vec<ByteRange> = Vec::new();
    let mut i: usize = 0;
    while i < ranges.len()
        invariant
            i <= ranges.len(),
            r@ =~= ranges@.take(i as int),
        decreases ranges.len() - i,
    {
        r.push(ranges[i]);
        i += 1;
    }
    assert(r@ =~= ranges@);
    r
}

/// An offer of a session, or the answer to one.
#[derive(Debug)]
pub struct HelloPacket {
    pub version: Version,
    pub opts: Options,
    pub packet_type: PacketType,
    pub control_type: ControlType,
    pub reserved: Reserved<2>,
    pub proposed_session_id: SessionId,
    pub timestamp: Timestamp,
    pub handshake_id: HandshakeId,
    pub public_key: PublicKey,
    pub receiving_port: Port,
    pub app_id: AppId,
}

impl Headers for HelloPacket {
    open spec fn head_image(&self) -> Seq<u8> {
        header::control_image(
                self.version.0,
                self.opts.0,
                self.packet_type.code(),
                self.control_type.code(),
                0,
                self.proposed_session_id.0,
                self.timestamp.0,
            ) + wire::be32(self.handshake_id.0) + self.public_key@ + wire::be16(self.receiving_port.0)
    }

    fn headers(&self) -> Vec<u8> {
        let mut out: Vec<u8> = Vec::new();
        self.put_headers(&mut out);
        assert(out@ =~= self.head_image());
        out
    }
}

impl HelloPacket {
    /// Number of bytes of the headers.
    pub const HEADER_SIZE: usize = 62;

    /// Appends the headers to `out`.
    fn put_headers(&self, out: &mut Vec<u8>)
        ensures
            final(out)@ == old(out)@ + self.head_image(),
            self.head_image().len() == 62,
    {
        header::put_control(
            out,
            self.version.0,
            self.opts.0,
            self.packet_type.to_code(),
            self.control_type.to_code(),
            0,
            self.proposed_session_id.0,
            self.timestamp.0,
        );
        wire::put_u32(out, self.handshake_id.0);
        self.public_key.put(out);
        wire::put_u16(out, self.receiving_port.0);
        assert(out@ =~= old(out)@ + self.head_image());
    }
}

impl Serialize for HelloPacket {
    open spec fn image(&self) -> Seq<u8> {
        self.head_image() + self.app_id.image()
    }

    open spec fn decodes(bytes: Seq<u8>) -> bool {
        &&& bytes.len() >= 62
        &&& PacketType::of_code(bytes[4]) is Some
        &&& ControlType::of_code(bytes[5]) is Some
        &&& AppId::decodes(bytes.subrange(62, bytes.len() as int))
    }

    open spec fn decoded_from(&self, bytes: Seq<u8>) -> bool {
        &&& self.version.0 == wire::rd16(bytes, 0)
        &&& self.opts.0 == wire::rd16(bytes, 2)
        &&& PacketType::of_code(bytes[4]) == Some(self.packet_type)
        &&& ControlType::of_code(bytes[5]) == Some(self.control_type)
        &&& self.proposed_session_id.0 == wire::rd64(bytes, 8)
        &&& self.timestamp.0 == wire::rd64(bytes, 16)
        &&& self.handshake_id.0 == wire::rd32(bytes, 24)
        &&& self.public_key@ == bytes.subrange(28, 60)
        &&& self.receiving_port.0 == wire::rd16(bytes, 60)
        &&& self.app_id.decoded_from(bytes.subrange(62, bytes.len() as int))
    }

    open spec fn writable(&self) -> bool {
        self.app_id.writable()
    }

    #[verifier::rlimit(40)]
    proof fn image_decodes(&self) {
        let s = self.image();
        let h = self.head_image();
        assert(s.subrange(0, 24) =~= header::control_image(
            self.version.0,
            self.opts.0,
            self.packet_type.code(),
            self.control_type.code(),
            0,
            self.proposed_session_id.0,
            self.timestamp.0,
        ));
        header::lemma_control(
            s,
            self.version.0,
            self.opts.0,
            self.packet_type.code(),
            self.control_type.code(),
            0,
            self.proposed_session_id.0,
            self.timestamp.0,
        );
        assert(s.subrange(24, 28) =~= wire::be32(self.handshake_id.0));
        wire::lemma_rd32(s, 24, self.handshake_id.0);
        assert(s.subrange(28, 60) =~= self.public_key@);
        assert(s.subrange(60, 62) =~= wire::be16(self.receiving_port.0));
        wire::lemma_rd16(s, 60, self.receiving_port.0);
        assert(s.subrange(62, s.len() as int) =~= self.app_id.image());
        self.app_id.image_decodes();
    }

    fn put(&self, out: &mut Vec<u8>) {
        self.put_headers(out);
        self.app_id.put(out);
        assert(out@ =~= old(out)@ + self.image());
    }

    fn sized(&self) -> usize {
        62 + self.app_id.sized()
    }

    fn deserialize(bytes: &[u8]) -> Result<Self, ()> {
        if bytes.len() < 62 {
            return Err(());
        }
        let packet_type: PacketType = match PacketType::from_code(bytes[4]) {
            Some(t) => t,
            None => {
                return Err(());
            },
        };
        let control_type: ControlType = match ControlType::from_code(bytes[5]) {
            Some(t) => t,
            None => {
                return Err(());
            },
        };
        let rest: Vec<u8> = wire::copy_range(bytes, 62, bytes.len());
        let app_id: AppId = match AppId::deserialize(rest.as_slice()) {
            Ok(id) => id,
            Err(()) => {
                return Err(());
            },
        };
        Ok(
            HelloPacket {
                version: Version(wire::get_u16(bytes, 0)),
                opts: Options(wire::get_u16(bytes, 2)),
                packet_type,
                control_type,
                reserved: Reserved,
                proposed_session_id: SessionId(wire::get_u64(bytes, 8)),
                timestamp: Timestamp(wire::get_u64(bytes, 16)),
                handshake_id: HandshakeId(wire::get_u32(bytes, 24)),
                public_key: PublicKey(wire::copy_array_32(bytes, 28)),
                receiving_port: Port(wire::get_u16(bytes, 60)),
                app_id,
            },
        )
    }
}

impl HelloPacket {
    /// Another copy of the packet.
    pub fn duplicate(&self) -> (r: Self)
        ensures
            r@ == self@,
    {
        HelloPacket {
            version: self.version,
            opts: self.opts,
            packet_type: self.packet_type,
            control_type: self.control_type,
            proposed_session_id: self.proposed_session_id,
            timestamp: self.timestamp,
            handshake_id: self.handshake_id,
            receiving_port: self.receiving_port,
            public_key: self.public_key,
            reserved: Reserved,
            app_id: self.app_id.duplicate(),
        }
    }
}

/// A request for a stream or for bytes about one.
#[derive(Debug)]
pub struct TrackRequestPacket {
    pub version: Version,
    pub opts: Options,
    pub packet_type: PacketType,
    pub control_type: ControlType,
    pub reserved: Reserved<2>,
    pub session_id: SessionId,
    pub timestamp: Timestamp,
    pub payload: Vec<u8>,
}

impl Headers for TrackRequestPacket {
    open spec fn head_image(&self) -> Seq<u8> {
        header::control_image(
                self.version.0,
                self.opts.0,
                self.packet_type.code(),
                self.control_type.code(),
                0,
                self.session_id.0,
                self.timestamp.0,
            )
    }

    fn headers(&self) -> Vec<u8> {
        let mut out: Vec<u8> = Vec::new();
        self.put_headers(&mut out);
        assert(out@ =~= self.head_image());
        out
    }
}

impl TrackRequestPacket {
    /// Number of bytes of the headers.
    pub const HEADER_SIZE: usize = 24;

    /// Appends the headers to `out`.
    fn put_headers(&self, out: &mut Vec<u8>)
        ensures
            final(out)@ == old(out)@ + self.head_image(),
            self.head_image().len() == 24,
    {
        header::put_control(
            out,
            self.version.0,
            self.opts.0,
            self.packet_type.to_code(),
            self.control_type.to_code(),
            0,
            self.session_id.0,
            self.timestamp.0,
        );
        assert(out@ =~= old(out)@ + self.head_image());
    }
}

impl Serialize for TrackRequestPacket {
    open spec fn image(&self) -> Seq<u8> {
        self.head_image() + self.payload@
    }

    open spec fn decodes(bytes: Seq<u8>) -> bool {
        &&& bytes.len() >= 24
        &&& PacketType::of_code(bytes[4]) is Some
        &&& ControlType::of_code(bytes[5]) is Some
    }

    open spec fn decoded_from(&self, bytes: Seq<u8>) -> bool {
        &&& self.version.0 == wire::rd16(bytes, 0)
        &&& self.opts.0 == wire::rd16(bytes, 2)
        &&& PacketType::of_code(bytes[4]) == Some(self.packet_type)
        &&& ControlType::of_code(bytes[5]) == Some(self.control_type)
        &&& self.session_id.0 == wire::rd64(bytes, 8)
        &&& self.timestamp.0 == wire::rd64(bytes, 16)
        &&& self.payload@ == bytes.subrange(24, bytes.len() as int)
    }

    open spec fn writable(&self) -> bool {
        true
    }

    #[verifier::rlimit(40)]
    proof fn image_decodes(&self) {
        let s = self.image();
        let h = self.head_image();
        assert(s.subrange(0, 24) =~= header::control_image(
            self.version.0,
            self.opts.0,
            self.packet_type.code(),
            self.control_type.code(),
            0,
            self.session_id.0,
            self.timestamp.0,
        ));
        header::lemma_control(
            s,
            self.version.0,
            self.opts.0,
            self.packet_type.code(),
            self.control_type.code(),
            0,
            self.session_id.0,
            self.timestamp.0,
        );
        assert(s.subrange(24, s.len() as int) =~= self.payload@);
    }

    fn put(&self, out: &mut Vec<u8>) {
        self.put_headers(out);
        wire::put_bytes(out, self.payload.as_slice());
        assert(out@ =~= old(out)@ + self.image());
    }

    fn sized(&self) -> usize {
        24 + self.payload.len()
    }

    fn deserialize(bytes: &[u8]) -> Result<Self, ()> {
        if bytes.len() < 24 {
            return Err(());
        }
        let packet_type: PacketType = match PacketType::from_code(bytes[4]) {
            Some(t) => t,
            None => {
                return Err(());
            },
        };
        let control_type: ControlType = match ControlType::from_code(bytes[5]) {
            Some(t) => t,
            None => {
                return Err(());
            },
        };
        let payload: Vec<u8> = wire::copy_range(bytes, 24, bytes.len());
        Ok(
            TrackRequestPacket {
                version: Version(wire::get_u16(bytes, 0)),
                opts: Options(wire::get_u16(bytes, 2)),
                packet_type,
                control_type,
                reserved: Reserved,
                session_id: SessionId(wire::get_u64(bytes, 8)),
                timestamp: Timestamp(wire::get_u64(bytes, 16)),
                payload,
            },
        )
    }
}

impl Payload for TrackRequestPacket {
    open spec fn body(&self) -> Seq<u8> {
        self.payload@
    }

    open spec fn same_but_payload(&self, other: &Self) -> bool {
        other@ == (views::TrackRequestView { payload: other.payload@, ..self@ })
    }

    fn payload(&self) -> &Vec<u8> {
        &self.payload
    }

    fn with_payload(self, payload: Vec<u8>) -> Self {
        let mut packet = self;
        packet.payload = payload;
        packet
    }
}

impl TrackRequestPacket {
    /// Another copy of the packet.
    pub fn duplicate(&self) -> (r: Self)
        ensures
            r@ == self@,
    {
        let payload: Vec<u8> = wire::copy_range(self.payload.as_slice(), 0, self.payload.len());
        assert(payload@ =~= self.payload@);
        TrackRequestPacket {
            version: self.version,
            opts: self.opts,
            packet_type: self.packet_type,
            control_type: self.control_type,
            session_id: self.session_id,
            timestamp: self.timestamp,
            reserved: Reserved,
            payload,
        }
    }
}

/// Bytes of a stream.
#[derive(Debug)]
pub struct DataPacket {
    pub version: Version,
    pub opts: Options,
    pub packet_type: PacketType,
    pub batch_id: BatchID,
    pub fec_info: FECInfo,
    pub session_id: SessionId,
    pub timestamp: Timestamp,
    pub byte_range_start: BytePosition,
    pub payload: Vec<u8>,
}

impl Headers for DataPacket {
    open spec fn head_image(&self) -> Seq<u8> {
        header::batch_image(
                self.version.0,
                self.opts.0,
                self.packet_type.code(),
                self.batch_id.0,
                self.fec_info.batch_size,
                self.fec_info.batch_pos,
                self.fec_info.recovery_count,
                self.session_id.0,
                self.timestamp.0,
            ) + wire::be32(self.byte_range_start.0)
    }

    fn headers(&self) -> Vec<u8> {
        let mut out: Vec<u8> = Vec::new();
        self.put_headers(&mut out);
        assert(out@ =~= self.head_image());
        out
    }
}

impl DataPacket {
    /// Number of bytes of the headers.
    pub const HEADER_SIZE: usize = 30;

    /// Appends the headers to `out`.
    fn put_headers(&self, out: &mut Vec<u8>)
        ensures
            final(out)@ == old(out)@ + self.head_image(),
            self.head_image().len() == 30,
    {
        header::put_batch(
            out,
            self.version.0,
            self.opts.0,
            self.packet_type.to_code(),
            self.batch_id.0,
            self.fec_info.batch_size,
            self.fec_info.batch_pos,
            self.fec_info.recovery_count,
            self.session_id.0,
            self.timestamp.0,
        );
        wire::put_u32(out, self.byte_range_start.0);
        assert(out@ =~= old(out)@ + self.head_image());
    }
}

impl Serialize for DataPacket {
    open spec fn image(&self) -> Seq<u8> {
        self.head_image() + self.payload@
    }

    open spec fn decodes(bytes: Seq<u8>) -> bool {
        &&& bytes.len() >= 30
        &&& PacketType::of_code(bytes[4]) is Some
    }

    open spec fn decoded_from(&self, bytes: Seq<u8>) -> bool {
        &&& self.version.0 == wire::rd16(bytes, 0)
        &&& self.opts.0 == wire::rd16(bytes, 2)
        &&& PacketType::of_code(bytes[4]) == Some(self.packet_type)
        &&& self.batch_id.0 == wire::rd16(bytes, 5)
        &&& self.fec_info == (FECInfo { batch_size: bytes[7], batch_pos: bytes[8], recovery_count: bytes[9] })
        &&& self.session_id.0 == wire::rd64(bytes, 10)
        &&& self.timestamp.0 == wire::rd64(bytes, 18)
        &&& self.byte_range_start.0 == wire::rd32(bytes, 26)
        &&& self.payload@ == bytes.subrange(30, bytes.len() as int)
    }

    open spec fn writable(&self) -> bool {
        true
    }

    #[verifier::rlimit(40)]
    proof fn image_decodes(&self) {
        let s = self.image();
        let h = self.head_image();
        assert(s.subrange(0, 26) =~= header::batch_image(
            self.version.0,
            self.opts.0,
            self.packet_type.code(),
            self.batch_id.0,
            self.fec_info.batch_size,
            self.fec_info.batch_pos,
            self.fec_info.recovery_count,
            self.session_id.0,
            self.timestamp.0,
        ));
        header::lemma_batch(
            s,
            self.version.0,
            self.opts.0,
            self.packet_type.code(),
            self.batch_id.0,
            self.fec_info.batch_size,
            self.fec_info.batch_pos,
            self.fec_info.recovery_count,
            self.session_id.0,
            self.timestamp.0,
        );
        assert(s.subrange(26, 30) =~= wire::be32(self.byte_range_start.0));
        wire::lemma_rd32(s, 26, self.byte_range_start.0);
        assert(s.subrange(30, s.len() as int) =~= self.payload@);
    }

    fn put(&self, out: &mut Vec<u8>) {
        self.put_headers(out);
        wire::put_bytes(out, self.payload.as_slice());
        assert(out@ =~= old(out)@ + self.image());
    }

    fn sized(&self) -> usize {
        30 + self.payload.len()
    }

    fn deserialize(bytes: &[u8]) -> Result<Self, ()> {
        if bytes.len() < 30 {
            return Err(());
        }
        let packet_type: PacketType = match PacketType::from_code(bytes[4]) {
            Some(t) => t,
            None => {
                return Err(());
            },
        };
        let payload: Vec<u8> = wire::copy_range(bytes, 30, bytes.len());
        Ok(
            DataPacket {
                version: Version(wire::get_u16(bytes, 0)),
                opts: Options(wire::get_u16(bytes, 2)),
                packet_type,
                batch_id: BatchID(wire::get_u16(bytes, 5)),
                fec_info: FECInfo { batch_size: bytes[7], batch_pos: bytes[8], recovery_count: bytes[9] },
                session_id: SessionId(wire::get_u64(bytes, 10)),
                timestamp: Timestamp(wire::get_u64(bytes, 18)),
                byte_range_start: BytePosition(wire::get_u32(bytes, 26)),
                payload,
            },
        )
    }
}

impl Payload for DataPacket {
    open spec fn body(&self) -> Seq<u8> {
        self.payload@
    }

    open spec fn same_but_payload(&self, other: &Self) -> bool {
        other@ == (views::DataView { payload: other.payload@, ..self@ })
    }

    fn payload(&self) -> &Vec<u8> {
        &self.payload
    }

    fn with_payload(self, payload: Vec<u8>) -> Self {
        let mut packet = self;
        packet.payload = payload;
        packet
    }
}

impl DataPacket {
    /// Another copy of the packet.
    pub fn duplicate(&self) -> (r: Self)
        ensures
            r@ == self@,
    {
        let payload: Vec<u8> = wire::copy_range(self.payload.as_slice(), 0, self.payload.len());
        assert(payload@ =~= self.payload@);
        DataPacket {
            version: self.version,
            opts: self.opts,
            packet_type: self.packet_type,
            batch_id: self.batch_id,
            fec_info: self.fec_info,
            session_id: self.session_id,
            timestamp: self.timestamp,
            byte_range_start: self.byte_range_start,
            payload,
        }
    }
}

/// Bytes about a stream.
#[derive(Debug)]
pub struct MetadataPacket {
    pub version: Version,
    pub opts: Options,
    pub packet_type: PacketType,
    pub batch_id: BatchID,
    pub fec_info: FECInfo,
    pub session_id: SessionId,
    pub timestamp: Timestamp,
    pub buffer_id: BufferId,
    pub buffer_size: BufferSize,
    pub position: BytePosition,
    pub payload: Vec<u8>,
}

impl Headers for MetadataPacket {
    open spec fn head_image(&self) -> Seq<u8> {
        header::batch_image(
                self.version.0,
                self.opts.0,
                self.packet_type.code(),
                self.batch_id.0,
                self.fec_info.batch_size,
                self.fec_info.batch_pos,
                self.fec_info.recovery_count,
                self.session_id.0,
                self.timestamp.0,
            ) + wire::be16(self.buffer_id.0) + wire::be32(self.buffer_size.0) + wire::be32(self.position.0)
    }

    fn headers(&self) -> Vec<u8> {
        let mut out: Vec<u8> = Vec::new();
        self.put_headers(&mut out);
        assert(out@ =~= self.head_image());
        out
    }
}

impl MetadataPacket {
    /// Number of bytes of the headers.
    pub const HEADER_SIZE: usize = 36;

    /// Appends the headers to `out`.
    fn put_headers(&self, out: &mut Vec<u8>)
        ensures
            final(out)@ == old(out)@ + self.head_image(),
            self.head_image().len() == 36,
    {
        header::put_batch(
            out,
            self.version.0,
            self.opts.0,
            self.packet_type.to_code(),
            self.batch_id.0,
            self.fec_info.batch_size,
            self.fec_info.batch_pos,
            self.fec_info.recovery_count,
            self.session_id.0,
            self.timestamp.0,
        );
        wire::put_u16(out, self.buffer_id.0);
        wire::put_u32(out, self.buffer_size.0);
        wire::put_u32(out, self.position.0);
        assert(out@ =~= old(out)@ + self.head_image());
    }
}

impl Serialize for MetadataPacket {
    open spec fn image(&self) -> Seq<u8> {
        self.head_image() + self.payload@
    }

    open spec fn decodes(bytes: Seq<u8>) -> bool {
        &&& bytes.len() >= 36
        &&& PacketType::of_code(bytes[4]) is Some
    }

    open spec fn decoded_from(&self, bytes: Seq<u8>) -> bool {
        &&& self.version.0 == wire::rd16(bytes, 0)
        &&& self.opts.0 == wire::rd16(bytes, 2)
        &&& PacketType::of_code(bytes[4]) == Some(self.packet_type)
        &&& self.batch_id.0 == wire::rd16(bytes, 5)
        &&& self.fec_info == (FECInfo { batch_size: bytes[7], batch_pos: bytes[8], recovery_count: bytes[9] })
        &&& self.session_id.0 == wire::rd64(bytes, 10)
        &&& self.timestamp.0 == wire::rd64(bytes, 18)
        &&& self.buffer_id.0 == wire::rd16(bytes, 26)
        &&& self.buffer_size.0 == wire::rd32(bytes, 28)
        &&& self.position.0 == wire::rd32(bytes, 32)
        &&& self.payload@ == bytes.subrange(36, bytes.len() as int)
    }

    open spec fn writable(&self) -> bool {
        true
    }

    #[verifier::rlimit(40)]
    proof fn image_decodes(&self) {
        let s = self.image();
        let h = self.head_image();
        assert(s.subrange(0, 26) =~= header::batch_image(
            self.version.0,
            self.opts.0,
            self.packet_type.code(),
            self.batch_id.0,
            self.fec_info.batch_size,
            self.fec_info.batch_pos,
            self.fec_info.recovery_count,
            self.session_id.0,
            self.timestamp.0,
        ));
        header::lemma_batch(
            s,
            self.version.0,
            self.opts.0,
            self.packet_type.code(),
            self.batch_id.0,
            self.fec_info.batch_size,
            self.fec_info.batch_pos,
            self.fec_info.recovery_count,
            self.session_id.0,
            self.timestamp.0,
        );
        assert(s.subrange(26, 28) =~= wire::be16(self.buffer_id.0));
        wire::lemma_rd16(s, 26, self.buffer_id.0);
        assert(s.subrange(28, 32) =~= wire::be32(self.buffer_size.0));
        wire::lemma_rd32(s, 28, self.buffer_size.0);
        assert(s.subrange(32, 36) =~= wire::be32(self.position.0));
        wire::lemma_rd32(s, 32, self.position.0);
        assert(s.subrange(36, s.len() as int) =~= self.payload@);
    }

    fn put(&self, out: &mut Vec<u8>) {
        self.put_headers(out);
        wire::put_bytes(out, self.payload.as_slice());
        assert(out@ =~= old(out)@ + self.image());
    }

    fn sized(&self) -> usize {
        36 + self.payload.len()
    }

    fn deserialize(bytes: &[u8]) -> Result<Self, ()> {
        if bytes.len() < 36 {
            return Err(());
        }
        let packet_type: PacketType = match PacketType::from_code(bytes[4]) {
            Some(t) => t,
            None => {
                return Err(());
            },
        };
        let payload: Vec<u8> = wire::copy_range(bytes, 36, bytes.len());
        Ok(
            MetadataPacket {
                version: Version(wire::get_u16(bytes, 0)),
                opts: Options(wire::get_u16(bytes, 2)),
                packet_type,
                batch_id: BatchID(wire::get_u16(bytes, 5)),
                fec_info: FECInfo { batch_size: bytes[7], batch_pos: bytes[8], recovery_count: bytes[9] },
                session_id: SessionId(wire::get_u64(bytes, 10)),
                timestamp: Timestamp(wire::get_u64(bytes, 18)),
                buffer_id: BufferId(wire::get_u16(bytes, 26)),
                buffer_size: BufferSize(wire::get_u32(bytes, 28)),
                position: BytePosition(wire::get_u32(bytes, 32)),
                payload,
            },
        )
    }
}

impl Payload for MetadataPacket {
    open spec fn body(&self) -> Seq<u8> {
        self.payload@
    }

    open spec fn same_but_payload(&self, other: &Self) -> bool {
        other@ == (views::MetadataView { payload: other.payload@, ..self@ })
    }

    fn payload(&self) -> &Vec<u8> {
        &self.payload
    }

    fn with_payload(self, payload: Vec<u8>) -> Self {
        let mut packet = self;
        packet.payload = payload;
        packet
    }
}

impl MetadataPacket {
    /// Another copy of the packet.
    pub fn duplicate(&self) -> (r: Self)
        ensures
            r@ == self@,
    {
        let payload: Vec<u8> = wire::copy_range(self.payload.as_slice(), 0, self.payload.len());
        assert(payload@ =~= self.payload@);
        MetadataPacket {
            version: self.version,
            opts: self.opts,
            packet_type: self.packet_type,
            batch_id: self.batch_id,
            fec_info: self.fec_info,
            session_id: self.session_id,
            timestamp: self.timestamp,
            buffer_id: self.buffer_id,
            buffer_size: self.buffer_size,
            position: self.position,
            payload,
        }
    }
}

/// Recovery data of a batch.
#[derive(Debug)]
pub struct ParityPacket {
    pub version: Version,
    pub opts: Options,
    pub packet_type: PacketType,
    pub batch_id: BatchID,
    pub fec_info: FECInfo,
    pub session_id: SessionId,
    pub timestamp: Timestamp,
    pub payload: Vec<u8>,
}

impl Headers for ParityPacket {
    open spec fn head_image(&self) -> Seq<u8> {
        header::batch_image(
                self.version.0,
                self.opts.0,
                self.packet_type.code(),
                self.batch_id.0,
                self.fec_info.batch_size,
                self.fec_info.batch_pos,
                self.fec_info.recovery_count,
                self.session_id.0,
                self.timestamp.0,
            )
    }

    fn headers(&self) -> Vec<u8> {
        let mut out: Vec<u8> = Vec::new();
        self.put_headers(&mut out);
        assert(out@ =~= self.head_image());
        out
    }
}

impl ParityPacket {
    /// Number of bytes of the headers.
    pub const HEADER_SIZE: usize = 26;

    /// Appends the headers to `out`.
    fn put_headers(&self, out: &mut Vec<u8>)
        ensures
            final(out)@ == old(out)@ + self.head_image(),
            self.head_image().len() == 26,
    {
        header::put_batch(
            out,
            self.version.0,
            self.opts.0,
            self.packet_type.to_code(),
            self.batch_id.0,
            self.fec_info.batch_size,
            self.fec_info.batch_pos,
            self.fec_info.recovery_count,
            self.session_id.0,
            self.timestamp.0,
        );
        assert(out@ =~= old(out)@ + self.head_image());
    }
}

impl Serialize for ParityPacket {
    open spec fn image(&self) -> Seq<u8> {
        self.head_image() + self.payload@
    }

    open spec fn decodes(bytes: Seq<u8>) -> bool {
        &&& bytes.len() >= 26
        &&& PacketType::of_code(bytes[4]) is Some
    }

    open spec fn decoded_from(&self, bytes: Seq<u8>) -> bool {
        &&& self.version.0 == wire::rd16(bytes, 0)
        &&& self.opts.0 == wire::rd16(bytes, 2)
        &&& PacketType::of_code(bytes[4]) == Some(self.packet_type)
        &&& self.batch_id.0 == wire::rd16(bytes, 5)
        &&& self.fec_info == (FECInfo { batch_size: bytes[7], batch_pos: bytes[8], recovery_count: bytes[9] })
        &&& self.session_id.0 == wire::rd64(bytes, 10)
        &&& self.timestamp.0 == wire::rd64(bytes, 18)
        &&& self.payload@ == bytes.subrange(26, bytes.len() as int)
    }

    open spec fn writable(&self) -> bool {
        true
    }

    #[verifier::rlimit(40)]
    proof fn image_decodes(&self) {
        let s = self.image();
        let h = self.head_image();
        assert(s.subrange(0, 26) =~= header::batch_image(
            self.version.0,
            self.opts.0,
            self.packet_type.code(),
            self.batch_id.0,
            self.fec_info.batch_size,
            self.fec_info.batch_pos,
            self.fec_info.recovery_count,
            self.session_id.0,
            self.timestamp.0,
        ));
        header::lemma_batch(
            s,
            self.version.0,
            self.opts.0,
            self.packet_type.code(),
            self.batch_id.0,
            self.fec_info.batch_size,
            self.fec_info.batch_pos,
            self.fec_info.recovery_count,
            self.session_id.0,
            self.timestamp.0,
        );
        assert(s.subrange(26, s.len() as int) =~= self.payload@);
    }

    fn put(&self, out: &mut Vec<u8>) {
        self.put_headers(out);
        wire::put_bytes(out, self.payload.as_slice());
        assert(out@ =~= old(out)@ + self.image());
    }

    fn sized(&self) -> usize {
        26 + self.payload.len()
    }

    fn deserialize(bytes: &[u8]) -> Result<Self, ()> {
        if bytes.len() < 26 {
            return Err(());
        }
        let packet_type: PacketType = match PacketType::from_code(bytes[4]) {
            Some(t) => t,
            None => {
                return Err(());
            },
        };
        let payload: Vec<u8> = wire::copy_range(bytes, 26, bytes.len());
        Ok(
            ParityPacket {
                version: Version(wire::get_u16(bytes, 0)),
                opts: Options(wire::get_u16(bytes, 2)),
                packet_type,
                batch_id: BatchID(wire::get_u16(bytes, 5)),
                fec_info: FECInfo { batch_size: bytes[7], batch_pos: bytes[8], recovery_count: bytes[9] },
                session_id: SessionId(wire::get_u64(bytes, 10)),
                timestamp: Timestamp(wire::get_u64(bytes, 18)),
                payload,
            },
        )
    }
}

impl Payload for ParityPacket {
    open spec fn body(&self) -> Seq<u8> {
        self.payload@
    }

    open spec fn same_but_payload(&self, other: &Self) -> bool {
        other@ == (views::ParityView { payload: other.payload@, ..self@ })
    }

    fn payload(&self) -> &Vec<u8> {
        &self.payload
    }

    fn with_payload(self, payload: Vec<u8>) -> Self {
        let mut packet = self;
        packet.payload = payload;
        packet
    }
}

impl ParityPacket {
    /// Another copy of the packet.
    pub fn duplicate(&self) -> (r: Self)
        ensures
            r@ == self@,
    {
        let payload: Vec<u8> = wire::copy_range(self.payload.as_slice(), 0, self.payload.len());
        assert(payload@ =~= self.payload@);
        ParityPacket {
            version: self.version,
            opts: self.opts,
            packet_type: self.packet_type,
            batch_id: self.batch_id,
            fec_info: self.fec_info,
            session_id: self.session_id,
            timestamp: self.timestamp,
            payload,
        }
    }
}

/// An acknowledgement of a packet.
#[derive(Debug)]
pub struct AckPacket {
    pub version: Version,
    pub opts: Options,
    pub packet_type: PacketType,
    pub reserved: Reserved<3>,
    pub session_id: SessionId,
    pub timestamp: Timestamp,
    pub fingerprint: PacketFingerprint,
}

impl Headers for AckPacket {
    open spec fn head_image(&self) -> Seq<u8> {
        header::control_image(
                self.version.0,
                self.opts.0,
                self.packet_type.code(),
                0,
                0,
                self.session_id.0,
                self.timestamp.0,
            ) + wire::be128(self.fingerprint.0)
    }

    fn headers(&self) -> Vec<u8> {
        let mut out: Vec<u8> = Vec::new();
        self.put_headers(&mut out);
        assert(out@ =~= self.head_image());
        out
    }
}

impl AckPacket {
    /// Number of bytes of the headers.
    pub const HEADER_SIZE: usize = 40;

    /// Appends the headers to `out`.
    fn put_headers(&self, out: &mut Vec<u8>)
        ensures
            final(out)@ == old(out)@ + self.head_image(),
            self.head_image().len() == 40,
    {
        header::put_control(
            out,
            self.version.0,
            self.opts.0,
            self.packet_type.to_code(),
            0,
            0,
            self.session_id.0,
            self.timestamp.0,
        );
        wire::put_u128(out, self.fingerprint.0);
        assert(out@ =~= old(out)@ + self.head_image());
    }
}

impl Serialize for AckPacket {
    open spec fn image(&self) -> Seq<u8> {
        self.head_image()
    }

    open spec fn decodes(bytes: Seq<u8>) -> bool {
        &&& bytes.len() >= 40
        &&& PacketType::of_code(bytes[4]) is Some
    }

    open spec fn decoded_from(&self, bytes: Seq<u8>) -> bool {
        &&& self.version.0 == wire::rd16(bytes, 0)
        &&& self.opts.0 == wire::rd16(bytes, 2)
        &&& PacketType::of_code(bytes[4]) == Some(self.packet_type)
        &&& self.session_id.0 == wire::rd64(bytes, 8)
        &&& self.timestamp.0 == wire::rd64(bytes, 16)
        &&& self.fingerprint.0 == wire::rd128(bytes, 24)
    }

    open spec fn writable(&self) -> bool {
        true
    }

    #[verifier::rlimit(40)]
    proof fn image_decodes(&self) {
        let s = self.image();
        let h = self.head_image();
        assert(s.subrange(0, 24) =~= header::control_image(
            self.version.0,
            self.opts.0,
            self.packet_type.code(),
            0,
            0,
            self.session_id.0,
            self.timestamp.0,
        ));
        header::lemma_control(
            s,
            self.version.0,
            self.opts.0,
            self.packet_type.code(),
            0,
            0,
            self.session_id.0,
            self.timestamp.0,
        );
        assert(s.subrange(24, 40) =~= wire::be128(self.fingerprint.0));
        wire::lemma_rd128(s, 24, self.fingerprint.0);
    }

    fn put(&self, out: &mut Vec<u8>) {
        self.put_headers(out);
    }

    fn sized(&self) -> usize {
        40
    }

    fn deserialize(bytes: &[u8]) -> Result<Self, ()> {
        if bytes.len() < 40 {
            return Err(());
        }
        let packet_type: PacketType = match PacketType::from_code(bytes[4]) {
            Some(t) => t,
            None => {
                return Err(());
            },
        };
        Ok(
            AckPacket {
                version: Version(wire::get_u16(bytes, 0)),
                opts: Options(wire::get_u16(bytes, 2)),
                packet_type,
                reserved: Reserved,
                session_id: SessionId(wire::get_u64(bytes, 8)),
                timestamp: Timestamp(wire::get_u64(bytes, 16)),
                fingerprint: PacketFingerprint(wire::get_u128(bytes, 24)),
            },
        )
    }
}

impl AckPacket {
    /// Another copy of the packet.
    pub fn duplicate(&self) -> (r: Self)
        ensures
            r == *self,
    {
        AckPacket {
            version: self.version,
            opts: self.opts,
            packet_type: self.packet_type,
            session_id: self.session_id,
            timestamp: self.timestamp,
            fingerprint: self.fingerprint,
            reserved: Reserved,
        }
    }
}

/// A request to send ranges of a stream again.
#[derive(Debug)]
pub struct RetransmitPacket {
    pub version: Version,
    pub opts: Options,
    pub packet_type: PacketType,
    pub control_type: ControlType,
    pub buffer_id: Option<BufferId>,
    pub session_id: SessionId,
    pub timestamp: Timestamp,
    pub payload: Vec<ByteRange>,
}

impl Headers for RetransmitPacket {
    open spec fn head_image(&self) -> Seq<u8> {
        header::control_image(
                self.version.0,
                self.opts.0,
                self.packet_type.code(),
                self.control_type.code(),
                buffer_code(self.buffer_id),
                self.session_id.0,
                self.timestamp.0,
            )
    }

    fn headers(&self) -> Vec<u8> {
        let mut out: Vec<u8> = Vec::new();
        self.put_headers(&mut out);
        assert(out@ =~= self.head_image());
        out
    }
}

impl RetransmitPacket {
    /// Number of bytes of the headers.
    pub const HEADER_SIZE: usize = 24;

    /// Appends the headers to `out`.
    fn put_headers(&self, out: &mut Vec<u8>)
        ensures
            final(out)@ == old(out)@ + self.head_image(),
            self.head_image().len() == 24,
    {
        header::put_control(
            out,
            self.version.0,
            self.opts.0,
            self.packet_type.to_code(),
            self.control_type.to_code(),
            buffer_to_code(self.buffer_id),
            self.session_id.0,
            self.timestamp.0,
        );
        assert(out@ =~= old(out)@ + self.head_image());
    }
}

impl Serialize for RetransmitPacket {
    open spec fn image(&self) -> Seq<u8> {
        self.head_image() + ranges::ranges_image(self.payload@)
    }

    open spec fn decodes(bytes: Seq<u8>) -> bool {
        &&& bytes.len() >= 30
        &&& PacketType::of_code(bytes[4]) is Some
        &&& ControlType::of_code(bytes[5]) is Some
    }

    open spec fn decoded_from(&self, bytes: Seq<u8>) -> bool {
        &&& self.version.0 == wire::rd16(bytes, 0)
        &&& self.opts.0 == wire::rd16(bytes, 2)
        &&& PacketType::of_code(bytes[4]) == Some(self.packet_type)
        &&& ControlType::of_code(bytes[5]) == Some(self.control_type)
        &&& self.buffer_id == buffer_of_code(wire::rd16(bytes, 6))
        &&& self.session_id.0 == wire::rd64(bytes, 8)
        &&& self.timestamp.0 == wire::rd64(bytes, 16)
        &&& self.payload@ == ranges::ranges_at(bytes, 24)
    }

    open spec fn writable(&self) -> bool {
        &&& self.buffer_id matches Some(b) ==> b.0 != 0
        &&& self.payload@.len() > 0
    }

    #[verifier::rlimit(40)]
    proof fn image_decodes(&self) {
        let s = self.image();
        let h = self.head_image();
        assert(s.subrange(0, 24) =~= header::control_image(
            self.version.0,
            self.opts.0,
            self.packet_type.code(),
            self.control_type.code(),
            buffer_code(self.buffer_id),
            self.session_id.0,
            self.timestamp.0,
        ));
        header::lemma_control(
            s,
            self.version.0,
            self.opts.0,
            self.packet_type.code(),
            self.control_type.code(),
            buffer_code(self.buffer_id),
            self.session_id.0,
            self.timestamp.0,
        );
        ranges::ranges_round_trip(h, self.payload@);
        ranges::lemma_ranges_image_len(self.payload@);
    }

    fn put(&self, out: &mut Vec<u8>) {
        self.put_headers(out);
        ranges::put_ranges(out, &self.payload);
        assert(out@ =~= old(out)@ + self.image());
    }

    fn sized(&self) -> usize {
        proof {
            ranges::lemma_ranges_image_len(self.payload@);
        }
        24 + self.payload.len() * 6
    }

    fn deserialize(bytes: &[u8]) -> Result<Self, ()> {
        if bytes.len() < 24 {
            return Err(());
        }
        let packet_type: PacketType = match PacketType::from_code(bytes[4]) {
            Some(t) => t,
            None => {
                return Err(());
            },
        };
        let control_type: ControlType = match ControlType::from_code(bytes[5]) {
            Some(t) => t,
            None => {
                return Err(());
            },
        };
        let payload: Vec<ByteRange> = match ranges::get_ranges(bytes, 24) {
            Ok(ranges) => ranges,
            Err(_) => {
                return Err(());
            },
        };
        Ok(
            RetransmitPacket {
                version: Version(wire::get_u16(bytes, 0)),
                opts: Options(wire::get_u16(bytes, 2)),
                packet_type,
                control_type,
                buffer_id: buffer_from_code(wire::get_u16(bytes, 6)),
                session_id: SessionId(wire::get_u64(bytes, 8)),
                timestamp: Timestamp(wire::get_u64(bytes, 16)),
                payload,
            },
        )
    }
}

impl RetransmitPacket {
    /// Another copy of the packet.
    pub fn duplicate(&self) -> (r: Self)
        ensures
            r@ == self@,
    {
        let payload: Vec<ByteRange> = copy_ranges(&self.payload);
        RetransmitPacket {
            version: self.version,
            opts: self.opts,
            packet_type: self.packet_type,
            control_type: self.control_type,
            buffer_id: self.buffer_id,
            session_id: self.session_id,
            timestamp: self.timestamp,
            payload,
        }
    }
}

/// A complaint that a packet was for no session.
#[derive(Debug)]
pub struct SessionDoesNotExistErrorPacket {
    pub version: Version,
    pub opts: Options,
    pub packet_type: PacketType,
    pub error_type: ErrorType,
    pub reserved: Reserved<2>,
    pub session_id: SessionId,
    pub timestamp: Timestamp,
}

impl Headers for SessionDoesNotExistErrorPacket {
    open spec fn head_image(&self) -> Seq<u8> {
        header::control_image(
                self.version.0,
                self.opts.0,
                self.packet_type.code(),
                self.error_type.code(),
                0,
                self.session_id.0,
                self.timestamp.0,
            )
    }

    fn headers(&self) -> Vec<u8> {
        let mut out: Vec<u8> = Vec::new();
        self.put_headers(&mut out);
        assert(out@ =~= self.head_image());
        out
    }
}

impl SessionDoesNotExistErrorPacket {
    /// Number of bytes of the headers.
    pub const HEADER_SIZE: usize = 24;

    /// Appends the headers to `out`.
    fn put_headers(&self, out: &mut Vec<u8>)
        ensures
            final(out)@ == old(out)@ + self.head_image(),
            self.head_image().len() == 24,
    {
        header::put_control(
            out,
            self.version.0,
            self.opts.0,
            self.packet_type.to_code(),
            self.error_type.to_code(),
            0,
            self.session_id.0,
            self.timestamp.0,
        );
        assert(out@ =~= old(out)@ + self.head_image());
    }
}

impl Serialize for SessionDoesNotExistErrorPacket {
    open spec fn image(&self) -> Seq<u8> {
        self.head_image()
    }

    open spec fn decodes(bytes: Seq<u8>) -> bool {
        &&& bytes.len() >= 24
        &&& PacketType::of_code(bytes[4]) is Some
        &&& ErrorType::of_code(bytes[5]) is Some
    }

    open spec fn decoded_from(&self, bytes: Seq<u8>) -> bool {
        &&& self.version.0 == wire::rd16(bytes, 0)
        &&& self.opts.0 == wire::rd16(bytes, 2)
        &&& PacketType::of_code(bytes[4]) == Some(self.packet_type)
        &&& ErrorType::of_code(bytes[5]) == Some(self.error_type)
        &&& self.session_id.0 == wire::rd64(bytes, 8)
        &&& self.timestamp.0 == wire::rd64(bytes, 16)
    }

    open spec fn writable(&self) -> bool {
        true
    }

    #[verifier::rlimit(40)]
    proof fn image_decodes(&self) {
        let s = self.image();
        let h = self.head_image();
        assert(s.subrange(0, 24) =~= header::control_image(
            self.version.0,
            self.opts.0,
            self.packet_type.code(),
            self.error_type.code(),
            0,
            self.session_id.0,
            self.timestamp.0,
        ));
        header::lemma_control(
            s,
            self.version.0,
            self.opts.0,
            self.packet_type.code(),
            self.error_type.code(),
            0,
            self.session_id.0,
            self.timestamp.0,
        );
    }

    fn put(&self, out: &mut Vec<u8>) {
        self.put_headers(out);
    }

    fn sized(&self) -> usize {
        24
    }

    fn deserialize(bytes: &[u8]) -> Result<Self, ()> {
        if bytes.len() < 24 {
            return Err(());
        }
        let packet_type: PacketType = match PacketType::from_code(bytes[4]) {
            Some(t) => t,
            None => {
                return Err(());
            },
        };
        let error_type: ErrorType = match ErrorType::from_code(bytes[5]) {
            Some(t) => t,
            None => {
                return Err(());
            },
        };
        Ok(
            SessionDoesNotExistErrorPacket {
                version: Version(wire::get_u16(bytes, 0)),
                opts: Options(wire::get_u16(bytes, 2)),
                packet_type,
                error_type,
                reserved: Reserved,
                session_id: SessionId(wire::get_u64(bytes, 8)),
                timestamp: Timestamp(wire::get_u64(bytes, 16)),
            },
        )
    }
}

impl SessionDoesNotExistErrorPacket {
    /// Another copy of the packet.
    pub fn duplicate(&self) -> (r: Self)
        ensures
            r == *self,
    {
        SessionDoesNotExistErrorPacket {
            version: self.version,
            opts: self.opts,
            packet_type: self.packet_type,
            error_type: self.error_type,
            session_id: self.session_id,
            timestamp: self.timestamp,
            reserved: Reserved,
        }
    }
}

/// A complaint about a packet that made no sense.
#[derive(Debug)]
pub struct UnexpectedPacketErrorPacket {
    pub version: Version,
    pub opts: Options,
    pub packet_type: PacketType,
    pub error_type: ErrorType,
    pub reserved: Reserved<2>,
    pub session_id: SessionId,
    pub timestamp: Timestamp,
    pub received_packet_type: PacketType,
    pub received_secondary_type: SecondaryType,
    pub received_fingerprint: PacketFingerprint,
}

impl Headers for UnexpectedPacketErrorPacket {
    open spec fn head_image(&self) -> Seq<u8> {
        header::control_image(
                self.version.0,
                self.opts.0,
                self.packet_type.code(),
                self.error_type.code(),
                0,
                self.session_id.0,
                self.timestamp.0,
            ) + seq![self.received_packet_type.code()] + wire::be16(self.received_secondary_type.0) + wire::be128(self.received_fingerprint.0)
    }

    fn headers(&self) -> Vec<u8> {
        let mut out: Vec<u8> = Vec::new();
        self.put_headers(&mut out);
        assert(out@ =~= self.head_image());
        out
    }
}

impl UnexpectedPacketErrorPacket {
    /// Number of bytes of the headers.
    pub const HEADER_SIZE: usize = 43;

    /// Appends the headers to `out`.
    fn put_headers(&self, out: &mut Vec<u8>)
        ensures
            final(out)@ == old(out)@ + self.head_image(),
            self.head_image().len() == 43,
    {
        header::put_control(
            out,
            self.version.0,
            self.opts.0,
            self.packet_type.to_code(),
            self.error_type.to_code(),
            0,
            self.session_id.0,
            self.timestamp.0,
        );
        out.push(self.received_packet_type.to_code());
        wire::put_u16(out, self.received_secondary_type.0);
        wire::put_u128(out, self.received_fingerprint.0);
        assert(out@ =~= old(out)@ + self.head_image());
    }
}

impl Serialize for UnexpectedPacketErrorPacket {
    open spec fn image(&self) -> Seq<u8> {
        self.head_image()
    }

    open spec fn decodes(bytes: Seq<u8>) -> bool {
        &&& bytes.len() >= 43
        &&& PacketType::of_code(bytes[4]) is Some
        &&& ErrorType::of_code(bytes[5]) is Some
        &&& PacketType::of_code(bytes[24]) is Some
    }

    open spec fn decoded_from(&self, bytes: Seq<u8>) -> bool {
        &&& self.version.0 == wire::rd16(bytes, 0)
        &&& self.opts.0 == wire::rd16(bytes, 2)
        &&& PacketType::of_code(bytes[4]) == Some(self.packet_type)
        &&& ErrorType::of_code(bytes[5]) == Some(self.error_type)
        &&& self.session_id.0 == wire::rd64(bytes, 8)
        &&& self.timestamp.0 == wire::rd64(bytes, 16)
        &&& PacketType::of_code(bytes[24]) == Some(self.received_packet_type)
        &&& self.received_secondary_type.0 == wire::rd16(bytes, 25)
        &&& self.received_fingerprint.0 == wire::rd128(bytes, 27)
    }

    open spec fn writable(&self) -> bool {
        true
    }

    #[verifier::rlimit(40)]
    proof fn image_decodes(&self) {
        let s = self.image();
        let h = self.head_image();
        assert(s.subrange(0, 24) =~= header::control_image(
            self.version.0,
            self.opts.0,
            self.packet_type.code(),
            self.error_type.code(),
            0,
            self.session_id.0,
            self.timestamp.0,
        ));
        header::lemma_control(
            s,
            self.version.0,
            self.opts.0,
            self.packet_type.code(),
            self.error_type.code(),
            0,
            self.session_id.0,
            self.timestamp.0,
        );
        assert(s[24] == self.received_packet_type.code());
        assert(s.subrange(25, 27) =~= wire::be16(self.received_secondary_type.0));
        wire::lemma_rd16(s, 25, self.received_secondary_type.0);
        assert(s.subrange(27, 43) =~= wire::be128(self.received_fingerprint.0));
        wire::lemma_rd128(s, 27, self.received_fingerprint.0);
    }

    fn put(&self, out: &mut Vec<u8>) {
        self.put_headers(out);
    }

    fn sized(&self) -> usize {
        43
    }

    fn deserialize(bytes: &[u8]) -> Result<Self, ()> {
        if bytes.len() < 43 {
            return Err(());
        }
        let packet_type: PacketType = match PacketType::from_code(bytes[4]) {
            Some(t) => t,
            None => {
                return Err(());
            },
        };
        let error_type: ErrorType = match ErrorType::from_code(bytes[5]) {
            Some(t) => t,
            None => {
                return Err(());
            },
        };
        let received_packet_type: PacketType = match PacketType::from_code(bytes[24]) {
            Some(t) => t,
            None => {
                return Err(());
            },
        };
        Ok(
            UnexpectedPacketErrorPacket {
                version: Version(wire::get_u16(bytes, 0)),
                opts: Options(wire::get_u16(bytes, 2)),
                packet_type,
                error_type,
                reserved: Reserved,
                session_id: SessionId(wire::get_u64(bytes, 8)),
                timestamp: Timestamp(wire::get_u64(bytes, 16)),
                received_packet_type,
                received_secondary_type: SecondaryType(wire::get_u16(bytes, 25)),
                received_fingerprint: PacketFingerprint(wire::get_u128(bytes, 27)),
            },
        )
    }
}

impl UnexpectedPacketErrorPacket {
    /// Another copy of the packet.
    pub fn duplicate(&self) -> (r: Self)
        ensures
            r == *self,
    {
        UnexpectedPacketErrorPacket {
            version: self.version,
            opts: self.opts,
            packet_type: self.packet_type,
            error_type: self.error_type,
            session_id: self.session_id,
            timestamp: self.timestamp,
            received_packet_type: self.received_packet_type,
            received_secondary_type: self.received_secondary_type,
            received_fingerprint: self.received_fingerprint,
            reserved: Reserved,
        }
    }
}

/// The application's refusal of a request.
#[derive(Debug)]
pub struct AppRejectErrorPacket {
    pub version: Version,
    pub opts: Options,
    pub packet_type: PacketType,
    pub error_type: ErrorType,
    pub reserved: Reserved<2>,
    pub session_id: SessionId,
    pub timestamp: Timestamp,
    pub received_type: PacketType,
    pub received_control_type: ControlType,
    pub received_fingerprint: PacketFingerprint,
    pub payload: Vec<u8>,
}

impl Headers for AppRejectErrorPacket {
    open spec fn head_image(&self) -> Seq<u8> {
        header::control_image(
                self.version.0,
                self.opts.0,
                self.packet_type.code(),
                self.error_type.code(),
                0,
                self.session_id.0,
                self.timestamp.0,
            ) + seq![self.received_type.code()] + seq![self.received_control_type.code()] + wire::be128(self.received_fingerprint.0)
    }

    fn headers(&self) -> Vec<u8> {
        let mut out: Vec<u8> = Vec::new();
        self.put_headers(&mut out);
        assert(out@ =~= self.head_image());
        out
    }
}

impl AppRejectErrorPacket {
    /// Number of bytes of the headers.
    pub const HEADER_SIZE: usize = 42;

    /// Appends the headers to `out`.
    fn put_headers(&self, out: &mut Vec<u8>)
        ensures
            final(out)@ == old(out)@ + self.head_image(),
            self.head_image().len() == 42,
    {
        header::put_control(
            out,
            self.version.0,
            self.opts.0,
            self.packet_type.to_code(),
            self.error_type.to_code(),
            0,
            self.session_id.0,
            self.timestamp.0,
        );
        out.push(self.received_type.to_code());
        out.push(self.received_control_type.to_code());
        wire::put_u128(out, self.received_fingerprint.0);
        assert(out@ =~= old(out)@ + self.head_image());
    }
}

impl Serialize for AppRejectErrorPacket {
    open spec fn image(&self) -> Seq<u8> {
        self.head_image() + self.payload@
    }

    open spec fn decodes(bytes: Seq<u8>) -> bool {
        &&& bytes.len() >= 42
        &&& PacketType::of_code(bytes[4]) is Some
        &&& ErrorType::of_code(bytes[5]) is Some
        &&& PacketType::of_code(bytes[24]) is Some
        &&& ControlType::of_code(bytes[25]) is Some
    }

    open spec fn decoded_from(&self, bytes: Seq<u8>) -> bool {
        &&& self.version.0 == wire::rd16(bytes, 0)
        &&& self.opts.0 == wire::rd16(bytes, 2)
        &&& PacketType::of_code(bytes[4]) == Some(self.packet_type)
        &&& ErrorType::of_code(bytes[5]) == Some(self.error_type)
        &&& self.session_id.0 == wire::rd64(bytes, 8)
        &&& self.timestamp.0 == wire::rd64(bytes, 16)
        &&& PacketType::of_code(bytes[24]) == Some(self.received_type)
        &&& ControlType::of_code(bytes[25]) == Some(self.received_control_type)
        &&& self.received_fingerprint.0 == wire::rd128(bytes, 26)
        &&& self.payload@ == bytes.subrange(42, bytes.len() as int)
    }

    open spec fn writable(&self) -> bool {
        true
    }

    #[verifier::rlimit(40)]
    proof fn image_decodes(&self) {
        let s = self.image();
        let h = self.head_image();
        assert(s.subrange(0, 24) =~= header::control_image(
            self.version.0,
            self.opts.0,
            self.packet_type.code(),
            self.error_type.code(),
            0,
            self.session_id.0,
            self.timestamp.0,
        ));
        header::lemma_control(
            s,
            self.version.0,
            self.opts.0,
            self.packet_type.code(),
            self.error_type.code(),
            0,
            self.session_id.0,
            self.timestamp.0,
        );
        assert(s[24] == self.received_type.code());
        assert(s[25] == self.received_control_type.code());
        assert(s.subrange(26, 42) =~= wire::be128(self.received_fingerprint.0));
        wire::lemma_rd128(s, 26, self.received_fingerprint.0);
        assert(s.subrange(42, s.len() as int) =~= self.payload@);
    }

    fn put(&self, out: &mut Vec<u8>) {
        self.put_headers(out);
        wire::put_bytes(out, self.payload.as_slice());
        assert(out@ =~= old(out)@ + self.image());
    }

    fn sized(&self) -> usize {
        42 + self.payload.len()
    }

    fn deserialize(bytes: &[u8]) -> Result<Self, ()> {
        if bytes.len() < 42 {
            return Err(());
        }
        let packet_type: PacketType = match PacketType::from_code(bytes[4]) {
            Some(t) => t,
            None => {
                return Err(());
            },
        };
        let error_type: ErrorType = match ErrorType::from_code(bytes[5]) {
            Some(t) => t,
            None => {
                return Err(());
            },
        };
        let received_type: PacketType = match PacketType::from_code(bytes[24]) {
            Some(t) => t,
            None => {
                return Err(());
            },
        };
        let received_control_type: ControlType = match ControlType::from_code(bytes[25]) {
            Some(t) => t,
            None => {
                return Err(());
            },
        };
        let payload: Vec<u8> = wire::copy_range(bytes, 42, bytes.len());
        Ok(
            AppRejectErrorPacket {
                version: Version(wire::get_u16(bytes, 0)),
                opts: Options(wire::get_u16(bytes, 2)),
                packet_type,
                error_type,
                reserved: Reserved,
                session_id: SessionId(wire::get_u64(bytes, 8)),
                timestamp: Timestamp(wire::get_u64(bytes, 16)),
                received_type,
                received_control_type,
                received_fingerprint: PacketFingerprint(wire::get_u128(bytes, 26)),
                payload,
            },
        )
    }
}

impl Payload for AppRejectErrorPacket {
    open spec fn body(&self) -> Seq<u8> {
        self.payload@
    }

    open spec fn same_but_payload(&self, other: &Self) -> bool {
        other@ == (views::AppRejectView { payload: other.payload@, ..self@ })
    }

    fn payload(&self) -> &Vec<u8> {
        &self.payload
    }

    fn with_payload(self, payload: Vec<u8>) -> Self {
        let mut packet = self;
        packet.payload = payload;
        packet
    }
}

impl AppRejectErrorPacket {
    /// Another copy of the packet.
    pub fn duplicate(&self) -> (r: Self)
        ensures
            r@ == self@,
    {
        let payload: Vec<u8> = wire::copy_range(self.payload.as_slice(), 0, self.payload.len());
        assert(payload@ =~= self.payload@);
        AppRejectErrorPacket {
            version: self.version,
            opts: self.opts,
            packet_type: self.packet_type,
            error_type: self.error_type,
            session_id: self.session_id,
            timestamp: self.timestamp,
            received_type: self.received_type,
            received_control_type: self.received_control_type,
            received_fingerprint: self.received_fingerprint,
            reserved: Reserved,
            payload,
        }
    }
}

/// A sign of life.
#[derive(Debug)]
pub struct KeepAlivePacket {
    pub version: Version,
    pub opts: Options,
    pub packet_type: PacketType,
    pub reserved: Reserved<3>,
    pub session_id: SessionId,
    pub timestamp: Timestamp,
}

impl Headers for KeepAlivePacket {
    open spec fn head_image(&self) -> Seq<u8> {
        header::control_image(
                self.version.0,
                self.opts.0,
                self.packet_type.code(),
                0,
                0,
                self.session_id.0,
                self.timestamp.0,
            )
    }

    fn headers(&self) -> Vec<u8> {
        let mut out: Vec<u8> = Vec::new();
        self.put_headers(&mut out);
        assert(out@ =~= self.head_image());
        out
    }
}

impl KeepAlivePacket {
    /// Number of bytes of the headers.
    pub const HEADER_SIZE: usize = 24;

    /// Appends the headers to `out`.
    fn put_headers(&self, out: &mut Vec<u8>)
        ensures
            final(out)@ == old(out)@ + self.head_image(),
            self.head_image().len() == 24,
    {
        header::put_control(
            out,
            self.version.0,
            self.opts.0,
            self.packet_type.to_code(),
            0,
            0,
            self.session_id.0,
            self.timestamp.0,
        );
        assert(out@ =~= old(out)@ + self.head_image());
    }
}

impl Serialize for KeepAlivePacket {
    open spec fn image(&self) -> Seq<u8> {
        self.head_image()
    }

    open spec fn decodes(bytes: Seq<u8>) -> bool {
        &&& bytes.len() >= 24
        &&& PacketType::of_code(bytes[4]) is Some
    }

    open spec fn decoded_from(&self, bytes: Seq<u8>) -> bool {
        &&& self.version.0 == wire::rd16(bytes, 0)
        &&& self.opts.0 == wire::rd16(bytes, 2)
        &&& PacketType::of_code(bytes[4]) == Some(self.packet_type)
        &&& self.session_id.0 == wire::rd64(bytes, 8)
        &&& self.timestamp.0 == wire::rd64(bytes, 16)
    }

    open spec fn writable(&self) -> bool {
        true
    }

    #[verifier::rlimit(40)]
    proof fn image_decodes(&self) {
        let s = self.image();
        let h = self.head_image();
        assert(s.subrange(0, 24) =~= header::control_image(
            self.version.0,
            self.opts.0,
            self.packet_type.code(),
            0,
            0,
            self.session_id.0,
            self.timestamp.0,
        ));
        header::lemma_control(
            s,
            self.version.0,
            self.opts.0,
            self.packet_type.code(),
            0,
            0,
            self.session_id.0,
            self.timestamp.0,
        );
    }

    fn put(&self, out: &mut Vec<u8>) {
        self.put_headers(out);
    }

    fn sized(&self) -> usize {
        24
    }

    fn deserialize(bytes: &[u8]) -> Result<Self, ()> {
        if bytes.len() < 24 {
            return Err(());
        }
        let packet_type: PacketType = match PacketType::from_code(bytes[4]) {
            Some(t) => t,
            None => {
                return Err(());
            },
        };
        Ok(
            KeepAlivePacket {
                version: Version(wire::get_u16(bytes, 0)),
                opts: Options(wire::get_u16(bytes, 2)),
                packet_type,
                reserved: Reserved,
                session_id: SessionId(wire::get_u64(bytes, 8)),
                timestamp: Timestamp(wire::get_u64(bytes, 16)),
            },
        )
    }
}

impl KeepAlivePacket {
    /// Another copy of the packet.
    pub fn duplicate(&self) -> (r: Self)
        ensures
            r == *self,
    {
        KeepAlivePacket {
            version: self.version,
            opts: self.opts,
            packet_type: self.packet_type,
            session_id: self.session_id,
            timestamp: self.timestamp,
            reserved: Reserved,
        }
    }
}

/// The end of a session.
#[derive(Debug)]
pub struct CloseSessionPacket {
    pub version: Version,
    pub opts: Options,
    pub packet_type: PacketType,
    pub control_type: ControlType,
    pub reserved: Reserved<2>,
    pub session_id: SessionId,
    pub timestamp: Timestamp,
}

impl Headers for CloseSessionPacket {
    open spec fn head_image(&self) -> Seq<u8> {
        header::control_image(
                self.version.0,
                self.opts.0,
                self.packet_type.code(),
                self.control_type.code(),
                0,
                self.session_id.0,
                self.timestamp.0,
            )
    }

    fn headers(&self) -> Vec<u8> {
        let mut out: Vec<u8> = Vec::new();
        self.put_headers(&mut out);
        assert(out@ =~= self.head_image());
        out
    }
}

impl CloseSessionPacket {
    /// Number of bytes of the headers.
    pub const HEADER_SIZE: usize = 24;

    /// Appends the headers to `out`.
    fn put_headers(&self, out: &mut Vec<u8>)
        ensures
            final(out)@ == old(out)@ + self.head_image(),
            self.head_image().len() == 24,
    {
        header::put_control(
            out,
            self.version.0,
            self.opts.0,
            self.packet_type.to_code(),
            self.control_type.to_code(),
            0,
            self.session_id.0,
            self.timestamp.0,
        );
        assert(out@ =~= old(out)@ + self.head_image());
    }
}

impl Serialize for CloseSessionPacket {
    open spec fn image(&self) -> Seq<u8> {
        self.head_image()
    }

    open spec fn decodes(bytes: Seq<u8>) -> bool {
        &&& bytes.len() >= 24
        &&& PacketType::of_code(bytes[4]) is Some
        &&& ControlType::of_code(bytes[5]) is Some
    }

    open spec fn decoded_from(&self, bytes: Seq<u8>) -> bool {
        &&& self.version.0 == wire::rd16(bytes, 0)
        &&& self.opts.0 == wire::rd16(bytes, 2)
        &&& PacketType::of_code(bytes[4]) == Some(self.packet_type)
        &&& ControlType::of_code(bytes[5]) == Some(self.control_type)
        &&& self.session_id.0 == wire::rd64(bytes, 8)
        &&& self.timestamp.0 == wire::rd64(bytes, 16)
    }

    open spec fn writable(&self) -> bool {
        true
    }

    #[verifier::rlimit(40)]
    proof fn image_decodes(&self) {
        let s = self.image();
        let h = self.head_image();
        assert(s.subrange(0, 24) =~= header::control_image(
            self.version.0,
            self.opts.0,
            self.packet_type.code(),
            self.control_type.code(),
            0,
            self.session_id.0,
            self.timestamp.0,
        ));
        header::lemma_control(
            s,
            self.version.0,
            self.opts.0,
            self.packet_type.code(),
            self.control_type.code(),
            0,
            self.session_id.0,
            self.timestamp.0,
        );
    }

    fn put(&self, out: &mut Vec<u8>) {
        self.put_headers(out);
    }

    fn sized(&self) -> usize {
        24
    }

    fn deserialize(bytes: &[u8]) -> Result<Self, ()> {
        if bytes.len() < 24 {
            return Err(());
        }
        let packet_type: PacketType = match PacketType::from_code(bytes[4]) {
            Some(t) => t,
            None => {
                return Err(());
            },
        };
        let control_type: ControlType = match ControlType::from_code(bytes[5]) {
            Some(t) => t,
            None => {
                return Err(());
            },
        };
        Ok(
            CloseSessionPacket {
                version: Version(wire::get_u16(bytes, 0)),
                opts: Options(wire::get_u16(bytes, 2)),
                packet_type,
                control_type,
                reserved: Reserved,
                session_id: SessionId(wire::get_u64(bytes, 8)),
                timestamp: Timestamp(wire::get_u64(bytes, 16)),
            },
        )
    }
}

impl CloseSessionPacket {
    /// Another copy of the packet.
    pub fn duplicate(&self) -> (r: Self)
        ensures
            r == *self,
    {
        CloseSessionPacket {
            version: self.version,
            opts: self.opts,
            packet_type: self.packet_type,
            control_type: self.control_type,
            session_id: self.session_id,
            timestamp: self.timestamp,
            reserved: Reserved,
        }
    }
}

/// The last step of a handshake.
#[derive(Debug)]
pub struct HandshakeAckPacket {
    pub version: Version,
    pub opts: Options,
    pub packet_type: PacketType,
    pub reserved: Reserved<3>,
    pub session_id: SessionId,
    pub timestamp: Timestamp,
    pub handshake_id: HandshakeId,
}

impl Headers for HandshakeAckPacket {
    open spec fn head_image(&self) -> Seq<u8> {
        header::control_image(
                self.version.0,
                self.opts.0,
                self.packet_type.code(),
                0,
                0,
                self.session_id.0,
                self.timestamp.0,
            ) + wire::be32(self.handshake_id.0)
    }

    fn headers(&self) -> Vec<u8> {
        let mut out: Vec<u8> = Vec::new();
        self.put_headers(&mut out);
        assert(out@ =~= self.head_image());
        out
    }
}

impl HandshakeAckPacket {
    /// Number of bytes of the headers.
    pub const HEADER_SIZE: usize = 28;

    /// Appends the headers to `out`.
    fn put_headers(&self, out: &mut Vec<u8>)
        ensures
            final(out)@ == old(out)@ + self.head_image(),
            self.head_image().len() == 28,
    {
        header::put_control(
            out,
            self.version.0,
            self.opts.0,
            self.packet_type.to_code(),
            0,
            0,
            self.session_id.0,
            self.timestamp.0,
        );
        wire::put_u32(out, self.handshake_id.0);
        assert(out@ =~= old(out)@ + self.head_image());
    }
}

impl Serialize for HandshakeAckPacket {
    open spec fn image(&self) -> Seq<u8> {
        self.head_image()
    }

    open spec fn decodes(bytes: Seq<u8>) -> bool {
        &&& bytes.len() >= 28
        &&& PacketType::of_code(bytes[4]) is Some
    }

    open spec fn decoded_from(&self, bytes: Seq<u8>) -> bool {
        &&& self.version.0 == wire::rd16(bytes, 0)
        &&& self.opts.0 == wire::rd16(bytes, 2)
        &&& PacketType::of_code(bytes[4]) == Some(self.packet_type)
        &&& self.session_id.0 == wire::rd64(bytes, 8)
        &&& self.timestamp.0 == wire::rd64(bytes, 16)
        &&& self.handshake_id.0 == wire::rd32(bytes, 24)
    }

    open spec fn writable(&self) -> bool {
        true
    }

    #[verifier::rlimit(40)]
    proof fn image_decodes(&self) {
        let s = self.image();
        let h = self.head_image();
        assert(s.subrange(0, 24) =~= header::control_image(
            self.version.0,
            self.opts.0,
            self.packet_type.code(),
            0,
            0,
            self.session_id.0,
            self.timestamp.0,
        ));
        header::lemma_control(
            s,
            self.version.0,
            self.opts.0,
            self.packet_type.code(),
            0,
            0,
            self.session_id.0,
            self.timestamp.0,
        );
        assert(s.subrange(24, 28) =~= wire::be32(self.handshake_id.0));
        wire::lemma_rd32(s, 24, self.handshake_id.0);
    }

    fn put(&self, out: &mut Vec<u8>) {
        self.put_headers(out);
    }

    fn sized(&self) -> usize {
        28
    }

    fn deserialize(bytes: &[u8]) -> Result<Self, ()> {
        if bytes.len() < 28 {
            return Err(());
        }
        let packet_type: PacketType = match PacketType::from_code(bytes[4]) {
            Some(t) => t,
            None => {
                return Err(());
            },
        };
        Ok(
            HandshakeAckPacket {
                version: Version(wire::get_u16(bytes, 0)),
                opts: Options(wire::get_u16(bytes, 2)),
                packet_type,
                reserved: Reserved,
                session_id: SessionId(wire::get_u64(bytes, 8)),
                timestamp: Timestamp(wire::get_u64(bytes, 16)),
                handshake_id: HandshakeId(wire::get_u32(bytes, 24)),
            },
        )
    }
}

impl HandshakeAckPacket {
    /// Another copy of the packet.
    pub fn duplicate(&self) -> (r: Self)
        ensures
            r == *self,
    {
        HandshakeAckPacket {
            version: self.version,
            opts: self.opts,
            packet_type: self.packet_type,
            session_id: self.session_id,
            timestamp: self.timestamp,
            handshake_id: self.handshake_id,
            reserved: Reserved,
        }
    }
}

/// A refused offer of a session.
#[derive(Debug)]
pub struct HandshakeRejection {
    pub version: Version,
    pub opts: Options,
    pub packet_type: PacketType,
    pub control_type: ControlType,
    pub reserved: Reserved<2>,
    pub session_id: SessionId,
    pub timestamp: Timestamp,
    pub reason: HandshakeRejectionReason,
    pub handshake_id: HandshakeId,
    pub payload: Vec<u8>,
}

impl Headers for HandshakeRejection {
    open spec fn head_image(&self) -> Seq<u8> {
        header::control_image(
                self.version.0,
                self.opts.0,
                self.packet_type.code(),
                self.control_type.code(),
                0,
                self.session_id.0,
                self.timestamp.0,
            ) + seq![self.reason.code()] + wire::be32(self.handshake_id.0)
    }

    fn headers(&self) -> Vec<u8> {
        let mut out: Vec<u8> = Vec::new();
        self.put_headers(&mut out);
        assert(out@ =~= self.head_image());
        out
    }
}

impl HandshakeRejection {
    /// Number of bytes of the headers.
    pub const HEADER_SIZE: usize = 29;

    /// Appends the headers to `out`.
    fn put_headers(&self, out: &mut Vec<u8>)
        ensures
            final(out)@ == old(out)@ + self.head_image(),
            self.head_image().len() == 29,
    {
        header::put_control(
            out,
            self.version.0,
            self.opts.0,
            self.packet_type.to_code(),
            self.control_type.to_code(),
            0,
            self.session_id.0,
            self.timestamp.0,
        );
        out.push(self.reason.to_code());
        wire::put_u32(out, self.handshake_id.0);
        assert(out@ =~= old(out)@ + self.head_image());
    }
}

impl Serialize for HandshakeRejection {
    open spec fn image(&self) -> Seq<u8> {
        self.head_image() + self.payload@
    }

    open spec fn decodes(bytes: Seq<u8>) -> bool {
        &&& bytes.len() >= 29
        &&& PacketType::of_code(bytes[4]) is Some
        &&& ControlType::of_code(bytes[5]) is Some
        &&& HandshakeRejectionReason::of_code(bytes[24]) is Some
    }

    open spec fn decoded_from(&self, bytes: Seq<u8>) -> bool {
        &&& self.version.0 == wire::rd16(bytes, 0)
        &&& self.opts.0 == wire::rd16(bytes, 2)
        &&& PacketType::of_code(bytes[4]) == Some(self.packet_type)
        &&& ControlType::of_code(bytes[5]) == Some(self.control_type)
        &&& self.session_id.0 == wire::rd64(bytes, 8)
        &&& self.timestamp.0 == wire::rd64(bytes, 16)
        &&& HandshakeRejectionReason::of_code(bytes[24]) == Some(self.reason)
        &&& self.handshake_id.0 == wire::rd32(bytes, 25)
        &&& self.payload@ == bytes.subrange(29, bytes.len() as int)
    }

    open spec fn writable(&self) -> bool {
        true
    }

    #[verifier::rlimit(40)]
    proof fn image_decodes(&self) {
        let s = self.image();
        let h = self.head_image();
        assert(s.subrange(0, 24) =~= header::control_image(
            self.version.0,
            self.opts.0,
            self.packet_type.code(),
            self.control_type.code(),
            0,
            self.session_id.0,
            self.timestamp.0,
        ));
        header::lemma_control(
            s,
            self.version.0,
            self.opts.0,
            self.packet_type.code(),
            self.control_type.code(),
            0,
            self.session_id.0,
            self.timestamp.0,
        );
        assert(s[24] == self.reason.code());
        assert(s.subrange(25, 29) =~= wire::be32(self.handshake_id.0));
        wire::lemma_rd32(s, 25, self.handshake_id.0);
        assert(s.subrange(29, s.len() as int) =~= self.payload@);
    }

    fn put(&self, out: &mut Vec<u8>) {
        self.put_headers(out);
        wire::put_bytes(out, self.payload.as_slice());
        assert(out@ =~= old(out)@ + self.image());
    }

    fn sized(&self) -> usize {
        29 + self.payload.len()
    }

    fn deserialize(bytes: &[u8]) -> Result<Self, ()> {
        if bytes.len() < 29 {
            return Err(());
        }
        let packet_type: PacketType = match PacketType::from_code(bytes[4]) {
            Some(t) => t,
            None => {
                return Err(());
            },
        };
        let control_type: ControlType = match ControlType::from_code(bytes[5]) {
            Some(t) => t,
            None => {
                return Err(());
            },
        };
        let reason: HandshakeRejectionReason = match HandshakeRejectionReason::from_code(bytes[24]) {
            Some(t) => t,
            None => {
                return Err(());
            },
        };
        let payload: Vec<u8> = wire::copy_range(bytes, 29, bytes.len());
        Ok(
            HandshakeRejection {
                version: Version(wire::get_u16(bytes, 0)),
                opts: Options(wire::get_u16(bytes, 2)),
                packet_type,
                control_type,
                reserved: Reserved,
                session_id: SessionId(wire::get_u64(bytes, 8)),
                timestamp: Timestamp(wire::get_u64(bytes, 16)),
                reason,
                handshake_id: HandshakeId(wire::get_u32(bytes, 25)),
                payload,
            },
        )
    }
}

impl Payload for HandshakeRejection {
    open spec fn body(&self) -> Seq<u8> {
        self.payload@
    }

    open spec fn same_but_payload(&self, other: &Self) -> bool {
        other@ == (views::HandshakeRejectionView { payload: other.payload@, ..self@ })
    }

    fn payload(&self) -> &Vec<u8> {
        &self.payload
    }

    fn with_payload(self, payload: Vec<u8>) -> Self {
        let mut packet = self;
        packet.payload = payload;
        packet
    }
}

impl HandshakeRejection {
    /// Another copy of the packet.
    pub fn duplicate(&self) -> (r: Self)
        ensures
            r@ == self@,
    {
        let payload: Vec<u8> = wire::copy_range(self.payload.as_slice(), 0, self.payload.len());
        assert(payload@ =~= self.payload@);
        HandshakeRejection {
            version: self.version,
            opts: self.opts,
            packet_type: self.packet_type,
            control_type: self.control_type,
            session_id: self.session_id,
            timestamp: self.timestamp,
            reason: self.reason,
            handshake_id: self.handshake_id,
            reserved: Reserved,
            payload,
        }
    }
}

/// A refused request for a stream.
#[derive(Debug)]
pub struct TrackRejectionPacket {
    pub version: Version,
    pub opts: Options,
    pub packet_type: PacketType,
    pub control_type: ControlType,
    pub reserved: Reserved<2>,
    pub session_id: SessionId,
    pub timestamp: Timestamp,
    pub payload: Vec<u8>,
}

impl Headers for TrackRejectionPacket {
    open spec fn head_image(&self) -> Seq<u8> {
        header::control_image(
                self.version.0,
                self.opts.0,
                self.packet_type.code(),
                self.control_type.code(),
                0,
                self.session_id.0,
                self.timestamp.0,
            )
    }

    fn headers(&self) -> Vec<u8> {
        let mut out: Vec<u8> = Vec::new();
        self.put_headers(&mut out);
        assert(out@ =~= self.head_image());
        out
    }
}

impl TrackRejectionPacket {
    /// Number of bytes of the headers.
    pub const HEADER_SIZE: usize = 24;

    /// Appends the headers to `out`.
    fn put_headers(&self, out: &mut Vec<u8>)
        ensures
            final(out)@ == old(out)@ + self.head_image(),
            self.head_image().len() == 24,
    {
        header::put_control(
            out,
            self.version.0,
            self.opts.0,
            self.packet_type.to_code(),
            self.control_type.to_code(),
            0,
            self.session_id.0,
            self.timestamp.0,
        );
        assert(out@ =~= old(out)@ + self.head_image());
    }
}

impl Serialize for TrackRejectionPacket {
    open spec fn image(&self) -> Seq<u8> {
        self.head_image() + self.payload@
    }

    open spec fn decodes(bytes: Seq<u8>) -> bool {
        &&& bytes.len() >= 24
        &&& PacketType::of_code(bytes[4]) is Some
        &&& ControlType::of_code(bytes[5]) is Some
    }

    open spec fn decoded_from(&self, bytes: Seq<u8>) -> bool {
        &&& self.version.0 == wire::rd16(bytes, 0)
        &&& self.opts.0 == wire::rd16(bytes, 2)
        &&& PacketType::of_code(bytes[4]) == Some(self.packet_type)
        &&& ControlType::of_code(bytes[5]) == Some(self.control_type)
        &&& self.session_id.0 == wire::rd64(bytes, 8)
        &&& self.timestamp.0 == wire::rd64(bytes, 16)
        &&& self.payload@ == bytes.subrange(24, bytes.len() as int)
    }

    open spec fn writable(&self) -> bool {
        true
    }

    #[verifier::rlimit(40)]
    proof fn image_decodes(&self) {
        let s = self.image();
        let h = self.head_image();
        assert(s.subrange(0, 24) =~= header::control_image(
            self.version.0,
            self.opts.0,
            self.packet_type.code(),
            self.control_type.code(),
            0,
            self.session_id.0,
            self.timestamp.0,
        ));
        header::lemma_control(
            s,
            self.version.0,
            self.opts.0,
            self.packet_type.code(),
            self.control_type.code(),
            0,
            self.session_id.0,
            self.timestamp.0,
        );
        assert(s.subrange(24, s.len() as int) =~= self.payload@);
    }

    fn put(&self, out: &mut Vec<u8>) {
        self.put_headers(out);
        wire::put_bytes(out, self.payload.as_slice());
        assert(out@ =~= old(out)@ + self.image());
    }

    fn sized(&self) -> usize {
        24 + self.payload.len()
    }

    fn deserialize(bytes: &[u8]) -> Result<Self, ()> {
        if bytes.len() < 24 {
            return Err(());
        }
        let packet_type: PacketType = match PacketType::from_code(bytes[4]) {
            Some(t) => t,
            None => {
                return Err(());
            },
        };
        let control_type: ControlType = match ControlType::from_code(bytes[5]) {
            Some(t) => t,
            None => {
                return Err(());
            },
        };
        let payload: Vec<u8> = wire::copy_range(bytes, 24, bytes.len());
        Ok(
            TrackRejectionPacket {
                version: Version(wire::get_u16(bytes, 0)),
                opts: Options(wire::get_u16(bytes, 2)),
                packet_type,
                control_type,
                reserved: Reserved,
                session_id: SessionId(wire::get_u64(bytes, 8)),
                timestamp: Timestamp(wire::get_u64(bytes, 16)),
                payload,
            },
        )
    }
}

impl Payload for TrackRejectionPacket {
    open spec fn body(&self) -> Seq<u8> {
        self.payload@
    }

    open spec fn same_but_payload(&self, other: &Self) -> bool {
        other@ == (views::TrackRejectionView { payload: other.payload@, ..self@ })
    }

    fn payload(&self) -> &Vec<u8> {
        &self.payload
    }

    fn with_payload(self, payload: Vec<u8>) -> Self {
        let mut packet = self;
        packet.payload = payload;
        packet
    }
}

impl TrackRejectionPacket {
    /// Another copy of the packet.
    pub fn duplicate(&self) -> (r: Self)
        ensures
            r@ == self@,
    {
        let payload: Vec<u8> = wire::copy_range(self.payload.as_slice(), 0, self.payload.len());
        assert(payload@ =~= self.payload@);
        TrackRejectionPacket {
            version: self.version,
            opts: self.opts,
            packet_type: self.packet_type,
            control_type: self.control_type,
            session_id: self.session_id,
            timestamp: self.timestamp,
            reserved: Reserved,
            payload,
        }
    }
}

} // verus!
