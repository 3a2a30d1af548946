//! Packets whose payload is encrypted.
use vstd::prelude::*;

use crate::manager::header;
use crate::manager::images::{
    AppRejectErrorPacket, DataPacket, ParityPacket, TrackRejectionPacket, TrackRequestPacket,
};
use crate::packet_processor::fingerprint::{Headers, Payload};
use crate::packet_processor::serialize::Serialize;
use crate::wire;

verus! {

/// A packet whose payload is encrypted.
pub trait Encryptable: Payload + Serialize {
    /// The headers come first and the payload comes last.
    proof fn image_parts(&self)
        ensures
            self.image() == self.head_image() + self.body(),
    ;

    /// Whatever comes after the headers is taken for the payload: bytes that begin with the
    /// headers of a packet are read as that packet with another payload.
    proof fn head_decides(&self, s: Seq<u8>)
        requires
            s.len() >= self.head_image().len(),
            s.take(self.head_image().len() as int) == self.head_image(),
        ensures
            Self::decodes(s),
            forall|q: Self| #[trigger]
                q.decoded_from(s) ==> q.head_image() == self.head_image() && q.body() == s.skip(
                    self.head_image().len() as int,
                ) && self.same_but_payload(&q),
    ;

    /// Two packets that are read from the same bytes are the same.
    proof fn decoded_alike(&self, other: &Self, s: Seq<u8>)
        requires
            self.decoded_from(s),
            other.decoded_from(s),
        ensures
            other.head_image() == self.head_image(),
            other.body() == self.body(),
            self.same_but_payload(other),
    ;

    /// Packets that are the same as one packet but for the payload are so to each other.
    proof fn same_through(&self, q: &Self, p: &Self)
        requires
            self.same_but_payload(q),
            q.same_but_payload(p),
        ensures
            self.same_but_payload(p),
    ;
}

impl Encryptable for DataPacket {
    proof fn image_parts(&self) {
    }

    proof fn decoded_alike(&self, other: &Self, s: Seq<u8>) {
    }

    proof fn same_through(&self, q: &Self, p: &Self) {
    }

    #[verifier::rlimit(60)]
    proof fn head_decides(&self, s: Seq<u8>) {
        let h = self.head_image();
        assert(h.len() == 30);
        let t = s.take(30);
        assert(s.subrange(0, 26) =~= t.subrange(0, 26));
        assert(h.subrange(0, 26) =~= header::batch_image(
            self.version.0,
            self.opts.0,
            self.packet_type.code(),
            self.batch_id.0,
            self.fec_info.batch_size,
            self.fec_info.batch_pos,
            self.fec_info.recovery_count,
            self.session_id.0,
            self.timestamp.0,
        ));
        header::lemma_batch(
            s,
            self.version.0,
            self.opts.0,
            self.packet_type.code(),
            self.batch_id.0,
            self.fec_info.batch_size,
            self.fec_info.batch_pos,
            self.fec_info.recovery_count,
            self.session_id.0,
            self.timestamp.0,
        );
        assert(s.subrange(26, 30) =~= t.subrange(26, 30));
        assert(h.subrange(26, 30) =~= wire::be32(self.byte_range_start.0));
        wire::lemma_rd32(s, 26, self.byte_range_start.0);
        assert(s.subrange(30, s.len() as int) =~= s.skip(30));
        assert forall|q: DataPacket| #[trigger] q.decoded_from(s) implies q.head_image() == h && q.body()
            == s.skip(30) && self.same_but_payload(&q) by {
            assert(q.version == self.version);
            assert(q.opts == self.opts);
            assert(q.packet_type == self.packet_type);
            assert(q.batch_id == self.batch_id);
            assert(q.fec_info == self.fec_info);
            assert(q.session_id == self.session_id);
            assert(q.timestamp == self.timestamp);
            assert(q.byte_range_start == self.byte_range_start);
        }
    }
}

impl Encryptable for ParityPacket {
    proof fn image_parts(&self) {
    }

    proof fn decoded_alike(&self, other: &Self, s: Seq<u8>) {
    }

    proof fn same_through(&self, q: &Self, p: &Self) {
    }

    #[verifier::rlimit(40)]
    proof fn head_decides(&self, s: Seq<u8>) {
        let h = self.head_image();
        assert(h.len() == 26);
        assert forall|i: int| 0 <= i < 26 implies s[i] == #[trigger] h[i] by {
            assert(s.take(26)[i] == s[i]);
        }
        assert(s.subrange(0, 26) =~= header::batch_image(
            self.version.0,
            self.opts.0,
            self.packet_type.code(),
            self.batch_id.0,
            self.fec_info.batch_size,
            self.fec_info.batch_pos,
            self.fec_info.recovery_count,
            self.session_id.0,
            self.timestamp.0,
        ));
        header::lemma_batch(
            s,
            self.version.0,
            self.opts.0,
            self.packet_type.code(),
            self.batch_id.0,
            self.fec_info.batch_size,
            self.fec_info.batch_pos,
            self.fec_info.recovery_count,
            self.session_id.0,
            self.timestamp.0,
        );
        assert(s.subrange(26, s.len() as int) =~= s.skip(26));
    }
}

impl Encryptable for TrackRequestPacket {
    proof fn image_parts(&self) {
    }

    proof fn decoded_alike(&self, other: &Self, s: Seq<u8>) {
    }

    proof fn same_through(&self, q: &Self, p: &Self) {
    }

    #[verifier::rlimit(40)]
    proof fn head_decides(&self, s: Seq<u8>) {
        let h = self.head_image();
        assert(h.len() == 24);
        assert forall|i: int| 0 <= i < 24 implies s[i] == #[trigger] h[i] by {
            assert(s.take(24)[i] == s[i]);
        }
        assert(s.subrange(0, 24) =~= header::control_image(
            self.version.0,
            self.opts.0,
            self.packet_type.code(),
            self.control_type.code(),
            0,
            self.session_id.0,
            self.timestamp.0,
        ));
        header::lemma_control(
            s,
            self.version.0,
            self.opts.0,
            self.packet_type.code(),
            self.control_type.code(),
            0,
            self.session_id.0,
            self.timestamp.0,
        );
        assert(s.subrange(24, s.len() as int) =~= s.skip(24));
    }
}

impl Encryptable for AppRejectErrorPacket {
    proof fn image_parts(&self) {
    }

    proof fn decoded_alike(&self, other: &Self, s: Seq<u8>) {
    }

    proof fn same_through(&self, q: &Self, p: &Self) {
    }

    #[verifier::rlimit(60)]
    proof fn head_decides(&self, s: Seq<u8>) {
        let h = self.head_image();
        assert(h.len() == 42);
        let t = s.take(42);
        assert(s.subrange(0, 24) =~= t.subrange(0, 24));
        assert(h.subrange(0, 24) =~= header::control_image(
            self.version.0,
            self.opts.0,
            self.packet_type.code(),
            self.error_type.code(),
            0,
            self.session_id.0,
            self.timestamp.0,
        ));
        header::lemma_control(
            s,
            self.version.0,
            self.opts.0,
            self.packet_type.code(),
            self.error_type.code(),
            0,
            self.session_id.0,
            self.timestamp.0,
        );
        assert(s[24] == t[24]);
        assert(h[24] == self.received_type.code());
        assert(s[25] == t[25]);
        assert(h[25] == self.received_control_type.code());
        assert(s.subrange(26, 42) =~= t.subrange(26, 42));
        assert(h.subrange(26, 42) =~= wire::be128(self.received_fingerprint.0));
        wire::lemma_rd128(s, 26, self.received_fingerprint.0);
        assert(s.subrange(42, s.len() as int) =~= s.skip(42));
        assert forall|q: AppRejectErrorPacket| #[trigger] q.decoded_from(s) implies q.head_image() == h && q.body()
            == s.skip(42) && self.same_but_payload(&q) by {
            assert(q.version == self.version);
            assert(q.opts == self.opts);
            assert(q.packet_type == self.packet_type);
            assert(q.error_type == self.error_type);
            assert(q.session_id == self.session_id);
            assert(q.timestamp == self.timestamp);
            assert(q.received_type == self.received_type);
            assert(q.received_control_type == self.received_control_type);
            assert(q.received_fingerprint == self.received_fingerprint);
        }
    }
}

impl Encryptable for TrackRejectionPacket {
    proof fn image_parts(&self) {
    }

    proof fn decoded_alike(&self, other: &Self, s: Seq<u8>) {
    }

    proof fn same_through(&self, q: &Self, p: &Self) {
    }

    #[verifier::rlimit(40)]
    proof fn head_decides(&self, s: Seq<u8>) {
        let h = self.head_image();
        assert(h.len() == 24);
        assert forall|i: int| 0 <= i < 24 implies s[i] == #[trigger] h[i] by {
            assert(s.take(24)[i] == s[i]);
        }
        assert(s.subrange(0, 24) =~= header::control_image(
            self.version.0,
            self.opts.0,
            self.packet_type.code(),
            self.control_type.code(),
            0,
            self.session_id.0,
            self.timestamp.0,
        ));
        header::lemma_control(
            s,
            self.version.0,
            self.opts.0,
            self.packet_type.code(),
            self.control_type.code(),
            0,
            self.session_id.0,
            self.timestamp.0,
        );
        assert(s.subrange(24, s.len() as int) =~= s.skip(24));
    }
}

} // verus!
