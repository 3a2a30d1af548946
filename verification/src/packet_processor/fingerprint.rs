//! Packet headers and payloads, and the digest by which packets are recognised.
use vstd::prelude::*;

use crate::manager::identity::PacketFingerprint;

verus! {

/// A packet with headers.
pub trait Headers {
    /// The bytes of the headers: the packet's image up to the payload.
    spec fn head_image(&self) -> Seq<u8>;

    /// The bytes of the headers.
    fn headers(&self) -> (h: Vec<u8>)
        ensures
            h@ == self.head_image(),
    ;
}

/// A packet with a payload of bytes after its headers.
pub trait Payload: Headers + Sized {
    /// The bytes of the payload.
    spec fn body(&self) -> Seq<u8>;

    /// Whether another packet is the same but for its payload.
    spec fn same_but_payload(&self, other: &Self) -> bool;

    /// The payload.
    fn payload(&self) -> (p: &Vec<u8>)
        ensures
            p@ == self.body(),
    ;

    /// The same packet with another payload.
    fn with_payload(self, payload: Vec<u8>) -> (r: Self)
        ensures
            r.head_image() == self.head_image(),
            r.body() == payload@,
            self.same_but_payload(&r),
    ;
}

/// The 128-bit XXH3 digest of `bytes`.
pub uninterp spec fn xxh3_128_of(bytes: Seq<u8>) -> u128;

/// Calls `xxhash_rust::xxh3::xxh3_128`: the 128-bit XXH3 digest with seed zero,
/// which depends on the bytes alone.
#[verifier::external_body]
fn digest(bytes: &[u8]) -> (d: u128)
    ensures
        d == xxh3_128_of(bytes@),
{
    xxhash_rust::xxh3::xxh3_128(bytes)
}

/// The fingerprint of `bytes`: their digest.
pub fn fingerprint_of(bytes: &[u8]) -> (f: PacketFingerprint)
    ensures
        f.0 == xxh3_128_of(bytes@),
{
    PacketFingerprint(digest(bytes))
}

/// Something that a fingerprint is taken of.
pub trait Fingerprint {
    /// The bytes that the fingerprint is taken of.
    spec fn fingerprinted(&self) -> Seq<u8>;

    /// The fingerprint.
    fn fingerprint(&self) -> (f: PacketFingerprint)
        ensures
            f.0 == xxh3_128_of(self.fingerprinted()),
    ;
}

impl Fingerprint for Vec<u8> {
    open spec fn fingerprinted(&self) -> Seq<u8> {
        self@
    }

    fn fingerprint(&self) -> PacketFingerprint {
        fingerprint_of(self.as_slice())
    }
}

/// The fingerprint of a packet: that of its headers.
pub fn header_fingerprint<T: Headers>(packet: &T) -> (f: PacketFingerprint)
    ensures
        f.0 == xxh3_128_of(packet.head_image()),
{
    let h: Vec<u8> = packet.headers();
    fingerprint_of(h.as_slice())
}

} // verus!
