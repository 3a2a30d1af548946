//! Protection of packets: encryption of payloads, and tags for packets in the clear.
//!
//! A session has one key, and every packet has its own nonce: the first half of the
//! session id and a counter of the packets. The counter begins at 0 again after its last
//! value, so that no nonce comes twice among 2^64 packets. What was protected with the key
//! of a session can be opened with it.
use vstd::prelude::*;

use aes_gcm_siv::{AeadInPlace, Aes256GcmSiv, KeyInit, Nonce};

use crate::manager::fields::SessionId;
use crate::packet_processor::fingerprint::{Headers, Payload};
use crate::wire;

verus! {

/// Number of bytes of a tag.
pub const TAG_SIZE: usize = 16;

/// Number of bytes of the counter that follows a tag.
pub const COUNTER_SIZE: usize = 8;

/// Longest data that can be protected.
pub const MAX_PROTECTED: usize = 0xffff_ffff;

/// What AES-256-GCM-SIV makes of `plain`: the ciphertext, then the tag over it and
/// `aad`.
pub uninterp spec fn aes_sealed(key: Seq<u8>, nonce: Seq<u8>, aad: Seq<u8>, plain: Seq<u8>) -> Seq<u8>;

/// What AES-256-GCM-SIV finds in `sealed`, if its tag is right.
pub uninterp spec fn aes_opened(key: Seq<u8>, nonce: Seq<u8>, aad: Seq<u8>, sealed: Seq<u8>) -> Option<Seq<u8>>;

/// Calls `AeadInPlace::encrypt_in_place` of `aes_gcm_siv::Aes256GcmSiv`: encrypts and
/// appends a tag of 16 bytes. It does not fail on data of this length.
#[verifier::external_body]
fn seal(key: &[u8; 32], nonce: &[u8; 12], aad: &Vec<u8>, plain: Vec<u8>) -> (sealed: Vec<u8>)
    requires
        aad@.len() <= MAX_PROTECTED,
        plain@.len() <= MAX_PROTECTED,
    ensures
        sealed@ == aes_sealed(key@, nonce@, aad@, plain@),
        sealed@.len() == plain@.len() + TAG_SIZE,
{
    let mut buffer = plain;
    let cipher = Aes256GcmSiv::new(&(*key).into());
    let _ = cipher.encrypt_in_place(&Nonce::from(*nonce), aad, &mut buffer);
    buffer
}

/// Calls `AeadInPlace::decrypt_in_place` of `aes_gcm_siv::Aes256GcmSiv`: gives what was
/// encrypted, without the tag. It fails where the tag is not the one that encryption
/// gives.
#[verifier::external_body]
fn open(key: &[u8; 32], nonce: &[u8; 12], aad: &Vec<u8>, sealed: Vec<u8>) -> (plain: Option<Vec<u8>>)
    requires
        aad@.len() <= MAX_PROTECTED,
        sealed@.len() <= MAX_PROTECTED,
    ensures
        plain is Some <==> aes_opened(key@, nonce@, aad@, sealed@) is Some,
        plain matches Some(p) ==> aes_opened(key@, nonce@, aad@, sealed@) == Some(p@),
        plain matches Some(p) ==> sealed@.len() == p@.len() + TAG_SIZE,
        forall|p: Seq<u8>|
            sealed@ == #[trigger] aes_sealed(key@, nonce@, aad@, p) && p.len() <= MAX_PROTECTED
                ==> (plain is Some && plain->0@ == p),
{
    let mut buffer = sealed;
    let cipher = Aes256GcmSiv::new(&(*key).into());
    cipher.decrypt_in_place(&Nonce::from(*nonce), aad, &mut buffer).ok()?;
    Some(buffer)
}

/// The nonce of a packet: the first four bytes of the session id, and the counter.
pub open spec fn nonce_of(session_id: SessionId, counter: Seq<u8>) -> Seq<u8> {
    wire::be64(session_id.0).subrange(0, 4) + counter
}

fn get_nonce(session_id: SessionId, counter: &[u8; 8]) -> (nonce: [u8; 12])
    ensures
        nonce@ == nonce_of(session_id, counter@),
{
    let s: [u8; 8] = wire::be64_array(session_id.0);
    let nonce: [u8; 12] = [
        s[0],
        s[1],
        s[2],
        s[3],
        counter[0],
        counter[1],
        counter[2],
        counter[3],
        counter[4],
        counter[5],
        counter[6],
        counter[7],
    ];
    assert(nonce@ =~= nonce_of(session_id, counter@));
    nonce
}

/// Data as it is protected: encrypted, with its tag, and with the counter of its nonce.
pub open spec fn protected(
    key: Seq<u8>,
    session_id: SessionId,
    counter: Seq<u8>,
    aad: Seq<u8>,
    plain: Seq<u8>,
) -> Seq<u8> {
    aes_sealed(key, nonce_of(session_id, counter), aad, plain) + counter
}

/// What protected data hold, if they are right.
pub open spec fn unprotected(
    key: Seq<u8>,
    session_id: SessionId,
    aad: Seq<u8>,
    data: Seq<u8>,
) -> Option<Seq<u8>> {
    let n = data.len() - COUNTER_SIZE;
    aes_opened(key, nonce_of(session_id, data.skip(n)), aad, data.take(n))
}

/// The key of a session, and the counter of its next packet.
#[derive(Debug)]
pub struct EncryptionWindow {
    key: [u8; 32],
    nonce: u64,
}

impl EncryptionWindow {
    /// The key.
    pub closed spec fn key(self) -> Seq<u8> {
        self.key@
    }

    /// The counter of the next packet.
    pub closed spec fn counter(self) -> u64 {
        self.nonce
    }

    /// A session of which nothing was sent.
    pub fn new(key: [u8; 32]) -> (w: Self)
        ensures
            w.key() == key@,
            w.key().len() == 32,
            w.counter() == 0,
    {
        EncryptionWindow { key, nonce: 0 }
    }

    /// The key, and the counter for one packet. The counter goes up by one; after the last
    /// value it is 0 again.
    pub fn get(&mut self) -> (r: ([u8; 32], [u8; 8]))
        ensures
            r.0@ == old(self).key(),
            r.1@ == wire::be64(old(self).counter()),
            final(self).key() == old(self).key(),
            final(self).counter() == (if old(self).counter() == u64::MAX {
                0
            } else {
                (old(self).counter() + 1) as u64
            }),
    {
        let counter: [u8; 8] = wire::be64_array(self.nonce);
        self.nonce = self.nonce.wrapping_add(1);
        (self.key, counter)
    }

    /// The key.
    pub fn get_cipher(&self) -> (key: [u8; 32])
        ensures
            key@ == self.key(),
    {
        self.key
    }
}

/// Encrypts the payload of a packet and binds its headers to it.
pub fn encrypt<T: Payload>(packet: T, session_id: SessionId, window: &mut EncryptionWindow) -> (r:
    T)
    requires
        packet.head_image().len() <= MAX_PROTECTED,
        packet.body().len() <= MAX_PROTECTED,
    ensures
        packet.same_but_payload(&r),
        r.head_image() == packet.head_image(),
        r.body() == protected(
            old(window).key(),
            session_id,
            wire::be64(old(window).counter()),
            packet.head_image(),
            packet.body(),
        ),
        r.body().len() == packet.body().len() + TAG_SIZE + COUNTER_SIZE,
        final(window).key() == old(window).key(),
        final(window).counter() == (if old(window).counter() == u64::MAX {
            0
        } else {
            (old(window).counter() + 1) as u64
        }),
{
    let aad: Vec<u8> = packet.headers();
    let payload: &Vec<u8> = packet.payload();
    let plain: Vec<u8> = wire::copy_range(payload.as_slice(), 0, payload.len());
    assert(plain@ =~= packet.body());
    let (key, counter) = window.get();
    let nonce: [u8; 12] = get_nonce(session_id, &counter);
    let mut sealed: Vec<u8> = seal(&key, &nonce, &aad, plain);
    wire::put_bytes(&mut sealed, counter.as_slice());
    packet.with_payload(sealed)
}

fn copy_counter(bytes: &Vec<u8>) -> (counter: [u8; 8])
    requires
        bytes@.len() >= COUNTER_SIZE,
    ensures
        counter@ == bytes@.skip(bytes@.len() - COUNTER_SIZE),
{
    let n: usize = bytes.len() - COUNTER_SIZE;
    let counter: [u8; 8] = [
        bytes[n],
        bytes[n + 1],
        bytes[n + 2],
        bytes[n + 3],
        bytes[n + 4],
        bytes[n + 5],
        bytes[n + 6],
        bytes[n + 7],
    ];
    assert(counter@ =~= bytes@.skip(bytes@.len() - COUNTER_SIZE));
    counter
}

/// Opens the payload of a packet. Fails where the payload or the headers are not those
/// that were protected; such a packet is of no use. What was protected with the same key
/// opens, unless it was empty.
pub fn decrypt<T: Payload>(packet: T, session_id: SessionId, window: &EncryptionWindow) -> (r:
    Result<T, ()>)
    requires
        packet.head_image().len() <= MAX_PROTECTED,
        packet.body().len() <= MAX_PROTECTED,
    ensures
        r is Ok <==> packet.body().len() >= 1 + TAG_SIZE + COUNTER_SIZE && unprotected(
            window.key(),
            session_id,
            packet.head_image(),
            packet.body(),
        ) is Some,
        r matches Ok(p) ==> packet.same_but_payload(&p) && p.head_image() == packet.head_image()
            && Some(p.body()) == unprotected(window.key(), session_id, packet.head_image(), packet.body()),
        r matches Ok(p) ==> p.body().len() + TAG_SIZE + COUNTER_SIZE == packet.body().len(),
        forall|counter: Seq<u8>, plain: Seq<u8>|
            counter.len() == COUNTER_SIZE && 1 <= plain.len() <= MAX_PROTECTED && packet.body()
                == #[trigger] protected(
                window.key(),
                session_id,
                counter,
                packet.head_image(),
                plain,
            ) && packet.body().len() == plain.len() + TAG_SIZE + COUNTER_SIZE ==> (r matches Ok(p)
                && p.body() == plain),
{
    let aad: Vec<u8> = packet.headers();
    let payload: &Vec<u8> = packet.payload();
    if payload.len() < 1 + TAG_SIZE + COUNTER_SIZE {
        return Err(());
    }
    let key: [u8; 32] = window.get_cipher();
    let counter: [u8; 8] = copy_counter(payload);
    let sealed: Vec<u8> = wire::copy_range(payload.as_slice(), 0, payload.len() - COUNTER_SIZE);
    let nonce: [u8; 12] = get_nonce(session_id, &counter);
    assert(sealed@ =~= packet.body().take(packet.body().len() - COUNTER_SIZE));
    assert forall|c: Seq<u8>, plain: Seq<u8>|
        c.len() == COUNTER_SIZE && 1 <= plain.len() <= MAX_PROTECTED && packet.body()
            == #[trigger] protected(
            window.key(),
            session_id,
            c,
            packet.head_image(),
            plain,
        ) && packet.body().len() == plain.len() + TAG_SIZE + COUNTER_SIZE implies c == counter@
        && sealed@ == aes_sealed(window.key(), nonce_of(session_id, c), packet.head_image(), plain) by {
        let whole = aes_sealed(
            window.key(),
            nonce_of(session_id, c),
            packet.head_image(),
            plain,
        );
        assert(c =~= counter@);
        assert(sealed@ =~= whole);
    }
    match open(&key, &nonce, &aad, sealed) {
        Some(plain) => Ok(packet.with_payload(plain)),
        None => Err(()),
    }
}

/// Appends a tag over all of a packet's bytes, and the counter of its nonce.
pub fn tag(packet: &mut Vec<u8>, session_id: SessionId, window: &mut EncryptionWindow)
    requires
        old(packet)@.len() <= MAX_PROTECTED,
    ensures
        final(packet)@ == old(packet)@ + protected(
            old(window).key(),
            session_id,
            wire::be64(old(window).counter()),
            old(packet)@,
            seq![],
        ),
        final(packet)@.len() == old(packet)@.len() + TAG_SIZE + COUNTER_SIZE,
        final(window).key() == old(window).key(),
        final(window).counter() == (if old(window).counter() == u64::MAX {
            0
        } else {
            (old(window).counter() + 1) as u64
        }),
{
    let (key, counter) = window.get();
    let nonce: [u8; 12] = get_nonce(session_id, &counter);
    let sealed: Vec<u8> = seal(&key, &nonce, packet, Vec::new());
    wire::put_bytes(packet, sealed.as_slice());
    wire::put_bytes(packet, counter.as_slice());
    assert(packet@ =~= old(packet)@ + protected(
        window.key(),
        session_id,
        counter@,
        old(packet)@,
        seq![],
    ));
}

/// The bytes that were tagged, of `[data | tag | counter]`.
pub open spec fn tagged_data(packet: Seq<u8>) -> Seq<u8> {
    packet.take(packet.len() - TAG_SIZE - COUNTER_SIZE)
}

/// Whether the bytes of a packet have a right tag.
pub open spec fn authentic(key: Seq<u8>, session_id: SessionId, packet: Seq<u8>) -> bool {
    packet.len() >= TAG_SIZE + COUNTER_SIZE && unprotected(
        key,
        session_id,
        tagged_data(packet),
        packet.skip(packet.len() - TAG_SIZE - COUNTER_SIZE),
    ) is Some
}

/// Takes the tag and the counter off a packet's bytes, which come in the shape
/// `[data | tag | counter]`. Says whether the tag is right; what was tagged with the same
/// key has a right tag. Bytes that are too few for a tag stay as they are.
pub fn authenticate(packet: &mut Vec<u8>, session_id: SessionId, window: &EncryptionWindow) -> (ok:
    bool)
    requires
        old(packet)@.len() <= MAX_PROTECTED,
    ensures
        ok == authentic(window.key(), session_id, old(packet)@),
        old(packet)@.len() >= TAG_SIZE + COUNTER_SIZE ==> final(packet)@ == tagged_data(
            old(packet)@,
        ),
        old(packet)@.len() < TAG_SIZE + COUNTER_SIZE ==> final(packet)@ == old(packet)@,
        forall|counter: Seq<u8>, data: Seq<u8>|
            counter.len() == COUNTER_SIZE && old(packet)@ == data + #[trigger] protected(
                window.key(),
                session_id,
                counter,
                data,
                seq![],
            ) && old(packet)@.len() == data.len() + TAG_SIZE + COUNTER_SIZE ==> ok
                && final(packet)@ == data,
{
    let len: usize = packet.len();
    if len < TAG_SIZE + COUNTER_SIZE {
        return false;
    }
    let ghost whole = packet@;
    let counter: [u8; 8] = copy_counter(packet);
    let nonce: [u8; 12] = get_nonce(session_id, &counter);
    let sealed: Vec<u8> = wire::copy_range(
        packet.as_slice(),
        len - TAG_SIZE - COUNTER_SIZE,
        len - COUNTER_SIZE,
    );
    packet.truncate(len - TAG_SIZE - COUNTER_SIZE);
    let key: [u8; 32] = window.get_cipher();
    assert(packet@ =~= tagged_data(whole));
    let ghost tail = whole.skip(whole.len() - TAG_SIZE - COUNTER_SIZE);
    assert(tail.skip(tail.len() - COUNTER_SIZE) =~= counter@);
    assert(tail.take(tail.len() - COUNTER_SIZE) =~= sealed@);
    assert forall|c: Seq<u8>, data: Seq<u8>|
        c.len() == COUNTER_SIZE && whole == data + #[trigger] protected(
            window.key(),
            session_id,
            c,
            data,
            seq![],
        ) && whole.len() == data.len() + TAG_SIZE + COUNTER_SIZE implies data == packet@
        && sealed@ == aes_sealed(key@, nonce@, packet@, seq![]) by {
        let inner = aes_sealed(window.key(), nonce_of(session_id, c), data, seq![]);
        assert(data =~= packet@);
        assert(c =~= counter@);
        assert(sealed@ =~= inner);
    }
    open(&key, &nonce, packet, sealed).is_some()
}

} // verus!
