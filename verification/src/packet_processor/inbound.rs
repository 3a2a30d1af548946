//! Packets on their way in: read from bytes, opened or authenticated, and dropped if they
//! came before.
use vstd::prelude::*;

use crate::manager::fields::SessionId;
use crate::manager::identity::PacketFingerprint;
use crate::manager::state;
use crate::manager::state::KeyView;
use crate::manager::types::Timestamp;
use crate::manager::windows;
use crate::manager::windows::FingerprintWindow;
use crate::packet_processor::encryptable::Encryptable;
use crate::packet_processor::encryption;
use crate::packet_processor::encryption::{
    EncryptionWindow, COUNTER_SIZE, MAX_PROTECTED, TAG_SIZE,
};
use crate::packet_processor::fingerprint;
use crate::packet_processor::fingerprint::{
    fingerprint_of, header_fingerprint, Headers, Payload,
};
use crate::packet_processor::serialize::Serialize;
use crate::utils::table::Table;

verus! {

/// Gives bytes back unless the same came of late.
pub fn dedup_no_payload(packet: Vec<u8>, window: &mut FingerprintWindow, now: Timestamp) -> (r:
    Option<Vec<u8>>)
    requires
        old(window).wf(),
    ensures
        final(window).wf(),
        ({
            let f = fingerprint::xxh3_128_of(packet@);
            &&& r is Some <==> !windows::queued(old(window)@, f)
            &&& r matches Some(bytes) ==> bytes@ == packet@ && final(window)@ == old(
                window,
            )@.push((now, f))
            &&& r is None ==> final(window)@ == old(window)@
        }),
{
    let f: PacketFingerprint = fingerprint_of(packet.as_slice());
    if window.contains(&f) {
        None
    } else {
        let _ = window.add(f, now);
        Some(packet)
    }
}

/// Gives a packet back unless one with the same headers came of late.
pub fn dedup_with_payload<T: Headers>(packet: T, window: &mut FingerprintWindow, now: Timestamp) -> (r:
    Option<T>)
    requires
        old(window).wf(),
    ensures
        final(window).wf(),
        ({
            let f = fingerprint::xxh3_128_of(packet.head_image());
            &&& r is Some <==> !windows::queued(old(window)@, f)
            &&& r matches Some(p) ==> p == packet && final(window)@ == old(window)@.push((now, f))
            &&& r is None ==> final(window)@ == old(window)@
        }),
{
    let f: PacketFingerprint = header_fingerprint(&packet);
    if window.contains(&f) {
        None
    } else {
        let _ = window.add(f, now);
        Some(packet)
    }
}

/// Whether the payload of a packet can be opened.
pub open spec fn openable(
    keys: Map<u64, KeyView>,
    session: SessionId,
    head: Seq<u8>,
    body: Seq<u8>,
) -> bool {
    &&& keys.dom().contains(session.0)
    &&& head.len() <= MAX_PROTECTED
    &&& 1 + TAG_SIZE + COUNTER_SIZE <= body.len() <= MAX_PROTECTED
    &&& encryption::unprotected(keys[session.0].key, session, head, body) is Some
}

/// Whether bytes are a packet that can be opened.
pub open spec fn sealed_ok<T: Encryptable>(
    keys: Map<u64, KeyView>,
    session: SessionId,
    data: Seq<u8>,
) -> bool {
    T::decodes(data) && exists|q: T| #[trigger]
        q.decoded_from(data) && openable(keys, session, q.head_image(), q.body())
}

/// Whether a packet is what bytes hold once they are opened.
pub open spec fn sealed_in<T: Encryptable>(
    keys: Map<u64, KeyView>,
    session: SessionId,
    data: Seq<u8>,
    p: T,
) -> bool {
    exists|q: T| #[trigger]
        q.decoded_from(data) && openable(keys, session, q.head_image(), q.body())
            && q.same_but_payload(&p) && p.head_image() == q.head_image() && Some(p.body())
            == encryption::unprotected(keys[session.0].key, session, q.head_image(), q.body())
}

/// Whether bytes are what a packet goes out as, with any counter: its headers in the clear,
/// and its payload encrypted.
pub open spec fn seals<T: Encryptable>(
    key: Seq<u8>,
    session: SessionId,
    counter: Seq<u8>,
    sent: T,
    data: Seq<u8>,
) -> bool {
    &&& data == sent.head_image() + encryption::protected(
        key,
        session,
        counter,
        sent.head_image(),
        sent.body(),
    )
    &&& counter.len() == COUNTER_SIZE
    &&& 1 <= sent.body().len() <= MAX_PROTECTED - TAG_SIZE - COUNTER_SIZE
    &&& sent.head_image().len() <= MAX_PROTECTED
    &&& data.len() == sent.head_image().len() + sent.body().len() + TAG_SIZE + COUNTER_SIZE
}

/// Reads a packet from bytes and opens its payload. What a peer sealed with the key of the
/// session comes out as it was.
pub fn open_sealed<T: Encryptable>(
    data: &Vec<u8>,
    session_id: SessionId,
    keys: &Table<u64, EncryptionWindow>,
) -> (r: Option<T>)
    ensures
        r is Some <==> sealed_ok::<T>(state::key_views(keys@), session_id, data@),
        r matches Some(p) ==> sealed_in(state::key_views(keys@), session_id, data@, p),
        forall|sent: T, counter: Seq<u8>|
            state::key_views(keys@).dom().contains(session_id.0) && #[trigger] seals(
                state::key_views(keys@)[session_id.0].key,
                session_id,
                counter,
                sent,
                data@,
            ) ==> (r matches Some(p) && sent.same_but_payload(&p) && p.head_image()
                == sent.head_image() && p.body() == sent.body()),
{
    let ghost views = state::key_views(keys@);
    let packet: T = match T::deserialize(data.as_slice()) {
        Ok(packet) => packet,
        Err(_) => {
            assert forall|sent: T, counter: Seq<u8>| #[trigger]
                seals(views[session_id.0].key, session_id, counter, sent, data@) implies false by {
                assert(data@.take(sent.head_image().len() as int) =~= sent.head_image());
                sent.head_decides(data@);
            }
            return None;
        },
    };
    let ghost q = packet;
    assert(q.decoded_from(data@));
    let window: &EncryptionWindow = match keys.get(session_id.0) {
        Some(window) => window,
        None => {
            return None;
        },
    };
    assert forall|other: T| #[trigger] other.decoded_from(data@) implies other.head_image()
        == q.head_image() && other.body() == q.body() by {
        q.decoded_alike(&other, data@);
    }
    let head: Vec<u8> = packet.headers();
    assert forall|sent: T, counter: Seq<u8>| #[trigger]
        seals(views[session_id.0].key, session_id, counter, sent, data@) implies q.head_image()
        == sent.head_image() && sent.same_but_payload(&q) && q.body() == encryption::protected(
        window.key(),
        session_id,
        counter,
        q.head_image(),
        sent.body(),
    ) && q.body().len() == sent.body().len() + TAG_SIZE + COUNTER_SIZE by {
        assert(data@.take(sent.head_image().len() as int) =~= sent.head_image());
        sent.head_decides(data@);
        assert(data@.skip(sent.head_image().len() as int) =~= encryption::protected(
            window.key(),
            session_id,
            counter,
            sent.head_image(),
            sent.body(),
        ));
    }
    if head.len() > MAX_PROTECTED || packet.payload().len() > MAX_PROTECTED {
        return None;
    }
    match encryption::decrypt(packet, session_id, window) {
        Ok(p) => {
            assert(sealed_in(views, session_id, data@, p));
            assert forall|sent: T, counter: Seq<u8>| #[trigger]
                seals(
                    views[session_id.0].key,
                    session_id,
                    counter,
                    sent,
                    data@,
                ) implies sent.same_but_payload(&p) && p.head_image() == sent.head_image()
                && p.body() == sent.body() by {
                sent.same_through(&q, &p);
                let whole = encryption::protected(
                    window.key(),
                    session_id,
                    counter,
                    q.head_image(),
                    sent.body(),
                );
                assert(q.body() == whole);
            }
            Some(p)
        },
        Err(_) => {
            assert forall|sent: T, counter: Seq<u8>| #[trigger]
                seals(views[session_id.0].key, session_id, counter, sent, data@) implies false by {
                let whole = encryption::protected(
                    window.key(),
                    session_id,
                    counter,
                    q.head_image(),
                    sent.body(),
                );
                assert(q.body() == whole);
            }
            None
        },
    }
}

/// Whether bytes have a right tag.
pub open spec fn tag_ok(keys: Map<u64, KeyView>, session: SessionId, data: Seq<u8>) -> bool {
    &&& keys.dom().contains(session.0)
    &&& data.len() <= MAX_PROTECTED
    &&& encryption::authentic(keys[session.0].key, session, data)
}

/// Whether bytes are an image with a tag behind it, with any counter.
pub open spec fn tags(
    key: Seq<u8>,
    session: SessionId,
    counter: Seq<u8>,
    image: Seq<u8>,
    data: Seq<u8>,
) -> bool {
    &&& data == image + encryption::protected(key, session, counter, image, seq![])
    &&& counter.len() == COUNTER_SIZE
    &&& data.len() == image.len() + TAG_SIZE + COUNTER_SIZE <= MAX_PROTECTED
}

/// Takes the tag off bytes if it is right. What a peer tagged with the key of the session
/// comes out as it was.
pub fn strip_tag(
    data: Vec<u8>,
    session_id: SessionId,
    keys: &Table<u64, EncryptionWindow>,
) -> (r: Option<Vec<u8>>)
    ensures
        r is Some <==> tag_ok(state::key_views(keys@), session_id, data@),
        r matches Some(bytes) ==> bytes@ == encryption::tagged_data(data@),
        forall|counter: Seq<u8>, image: Seq<u8>|
            state::key_views(keys@).dom().contains(session_id.0) && #[trigger] tags(
                state::key_views(keys@)[session_id.0].key,
                session_id,
                counter,
                image,
                data@,
            ) ==> (r matches Some(bytes) && bytes@ == image),
{
    let ghost views = state::key_views(keys@);
    let window: &EncryptionWindow = match keys.get(session_id.0) {
        Some(window) => window,
        None => {
            return None;
        },
    };
    if data.len() > MAX_PROTECTED {
        return None;
    }
    let mut bytes: Vec<u8> = data;
    let ghost whole = bytes@;
    let ok: bool = encryption::authenticate(&mut bytes, session_id, window);
    assert forall|counter: Seq<u8>, image: Seq<u8>| #[trigger]
        tags(views[session_id.0].key, session_id, counter, image, whole) implies ok && bytes@
        == image by {
        let tail = encryption::protected(window.key(), session_id, counter, image, seq![]);
        assert(whole == image + tail);
    }
    if ok {
        Some(bytes)
    } else {
        None
    }
}

/// What reading a packet from bytes in the clear gives.
pub open spec fn reads_plain<T: Serialize>(data: Seq<u8>, r: Option<T>) -> bool {
    &&& r is Some <==> T::decodes(data)
    &&& r matches Some(p) ==> p.decoded_from(data)
}

/// Reads a packet from bytes in the clear.
pub fn read_plain<T: Serialize>(data: &Vec<u8>) -> (r: Option<T>)
    ensures
        reads_plain(data@, r),
{
    match T::deserialize(data.as_slice()) {
        Ok(p) => Some(p),
        Err(_) => None,
    }
}

/// What reading a packet from bytes with a tag gives, and the fingerprints after that.
/// Bytes that came of late are dropped.
pub open spec fn reads_tagged<T: Serialize>(
    keys: Map<u64, KeyView>,
    window: Seq<(Timestamp, u128)>,
    after: Seq<(Timestamp, u128)>,
    session: SessionId,
    data: Seq<u8>,
    now: Timestamp,
    r: Option<T>,
) -> bool {
    let bytes = encryption::tagged_data(data);
    let f = fingerprint::xxh3_128_of(bytes);
    if tag_ok(keys, session, data) && !windows::queued(window, f) {
        after == window.push((now, f)) && reads_plain(bytes, r)
    } else {
        after == window && r is None
    }
}

/// Reads a packet from bytes with a tag. What a peer tagged with the key of the session
/// comes out as it was, unless it came of late.
pub fn read_tagged<T: Serialize>(
    data: Vec<u8>,
    session_id: SessionId,
    keys: &Table<u64, EncryptionWindow>,
    window: &mut FingerprintWindow,
    now: Timestamp,
) -> (r: Option<T>)
    requires
        old(window).wf(),
    ensures
        final(window).wf(),
        reads_tagged(
            state::key_views(keys@),
            old(window)@,
            final(window)@,
            session_id,
            data@,
            now,
            r,
        ),
        forall|counter: Seq<u8>, image: Seq<u8>|
            state::key_views(keys@).dom().contains(session_id.0) && #[trigger] tags(
                state::key_views(keys@)[session_id.0].key,
                session_id,
                counter,
                image,
                data@,
            ) && !windows::queued(old(window)@, fingerprint::xxh3_128_of(image)) ==> reads_plain(
                image,
                r,
            ),
{
    let bytes: Vec<u8> = match strip_tag(data, session_id, keys) {
        Some(bytes) => bytes,
        None => {
            return None;
        },
    };
    match dedup_no_payload(bytes, window, now) {
        Some(bytes) => read_plain(&bytes),
        None => None,
    }
}

/// What reading a packet from bytes with an encrypted payload gives, and the fingerprints
/// after that. A packet with the headers of one that came of late is dropped.
pub open spec fn reads_sealed<T: Encryptable>(
    keys: Map<u64, KeyView>,
    window: Seq<(Timestamp, u128)>,
    after: Seq<(Timestamp, u128)>,
    session: SessionId,
    data: Seq<u8>,
    now: Timestamp,
    r: Option<T>,
) -> bool {
    if sealed_ok::<T>(keys, session, data) {
        exists|p: T| #[trigger]
            sealed_in(keys, session, data, p) && {
                let f = fingerprint::xxh3_128_of(p.head_image());
                if windows::queued(window, f) {
                    after == window && r is None
                } else {
                    after == window.push((now, f)) && r == Some(p)
                }
            }
    } else {
        after == window && r is None
    }
}

/// Reads a packet from bytes with an encrypted payload. What a peer sealed with the key of
/// the session comes out as it was, unless its headers came of late.
pub fn read_sealed<T: Encryptable>(
    data: &Vec<u8>,
    session_id: SessionId,
    keys: &Table<u64, EncryptionWindow>,
    window: &mut FingerprintWindow,
    now: Timestamp,
) -> (r: Option<T>)
    requires
        old(window).wf(),
    ensures
        final(window).wf(),
        reads_sealed(
            state::key_views(keys@),
            old(window)@,
            final(window)@,
            session_id,
            data@,
            now,
            r,
        ),
        forall|sent: T, counter: Seq<u8>|
            state::key_views(keys@).dom().contains(session_id.0) && #[trigger] seals(
                state::key_views(keys@)[session_id.0].key,
                session_id,
                counter,
                sent,
                data@,
            ) && !windows::queued(
                old(window)@,
                fingerprint::xxh3_128_of(sent.head_image()),
            ) ==> (r matches Some(p) && sent.same_but_payload(&p) && p.body() == sent.body()),
{
    match open_sealed::<T>(data, session_id, keys) {
        Some(p) => {
            assert(sealed_in(state::key_views(keys@), session_id, data@, p));
            dedup_with_payload(p, window, now)
        },
        None => None,
    }
}

} // verus!
