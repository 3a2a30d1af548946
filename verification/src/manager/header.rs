//! The headers that packets begin with.
use vstd::prelude::*;

use crate::wire;

verus! {

/// The headers of a control, acknowledgement or error packet: version, options,
/// packet type, a secondary type, two bytes more, session and time.
pub open spec fn control_image(
    version: u16,
    opts: u16,
    packet_type: u8,
    secondary: u8,
    extra: u16,
    session: u64,
    timestamp: u64,
) -> Seq<u8> {
    wire::be16(version) + wire::be16(opts) + seq![packet_type, secondary] + wire::be16(extra)
        + wire::be64(session) + wire::be64(timestamp)
}

/// Number of bytes of a control header.
pub const CONTROL_HEADER_SIZE: usize = 24;

/// The headers of a packet in a batch: version, options, packet type, batch, place
/// in the batch, session and time.
pub open spec fn batch_image(
    version: u16,
    opts: u16,
    packet_type: u8,
    batch: u16,
    size: u8,
    pos: u8,
    recovery: u8,
    session: u64,
    timestamp: u64,
) -> Seq<u8> {
    wire::be16(version) + wire::be16(opts) + seq![packet_type] + wire::be16(batch) + seq![
        size,
        pos,
        recovery,
    ] + wire::be64(session) + wire::be64(timestamp)
}

/// Number of bytes of a batch header.
pub const BATCH_HEADER_SIZE: usize = 26;

/// Reading a control header where it was written gives its fields.
pub proof fn lemma_control(
    s: Seq<u8>,
    version: u16,
    opts: u16,
    packet_type: u8,
    secondary: u8,
    extra: u16,
    session: u64,
    timestamp: u64,
)
    requires
        s.len() >= 24,
        s.subrange(0, 24) == control_image(
            version,
            opts,
            packet_type,
            secondary,
            extra,
            session,
            timestamp,
        ),
    ensures
        wire::rd16(s, 0) == version,
        wire::rd16(s, 2) == opts,
        s[4] == packet_type,
        s[5] == secondary,
        wire::rd16(s, 6) == extra,
        wire::rd64(s, 8) == session,
        wire::rd64(s, 16) == timestamp,
{
    let h = s.subrange(0, 24);
    assert(h.subrange(0, 2) =~= wire::be16(version));
    assert(h.subrange(2, 4) =~= wire::be16(opts));
    assert(h.subrange(6, 8) =~= wire::be16(extra));
    assert(h.subrange(8, 16) =~= wire::be64(session));
    assert(h.subrange(16, 24) =~= wire::be64(timestamp));
    assert(s.subrange(0, 2) =~= h.subrange(0, 2));
    assert(s.subrange(2, 4) =~= h.subrange(2, 4));
    assert(s.subrange(6, 8) =~= h.subrange(6, 8));
    assert(s.subrange(8, 16) =~= h.subrange(8, 16));
    assert(s.subrange(16, 24) =~= h.subrange(16, 24));
    assert(s[4] == h[4] && s[5] == h[5]);
    wire::lemma_rd16(s, 0, version);
    wire::lemma_rd16(s, 2, opts);
    wire::lemma_rd16(s, 6, extra);
    wire::lemma_rd64(s, 8, session);
    wire::lemma_rd64(s, 16, timestamp);
}

/// Reading a batch header where it was written gives its fields.
pub proof fn lemma_batch(
    s: Seq<u8>,
    version: u16,
    opts: u16,
    packet_type: u8,
    batch: u16,
    size: u8,
    pos: u8,
    recovery: u8,
    session: u64,
    timestamp: u64,
)
    requires
        s.len() >= 26,
        s.subrange(0, 26) == batch_image(
            version,
            opts,
            packet_type,
            batch,
            size,
            pos,
            recovery,
            session,
            timestamp,
        ),
    ensures
        wire::rd16(s, 0) == version,
        wire::rd16(s, 2) == opts,
        s[4] == packet_type,
        wire::rd16(s, 5) == batch,
        s[7] == size,
        s[8] == pos,
        s[9] == recovery,
        wire::rd64(s, 10) == session,
        wire::rd64(s, 18) == timestamp,
{
    let h = s.subrange(0, 26);
    assert(h.subrange(0, 2) =~= wire::be16(version));
    assert(h.subrange(2, 4) =~= wire::be16(opts));
    assert(h.subrange(5, 7) =~= wire::be16(batch));
    assert(h.subrange(10, 18) =~= wire::be64(session));
    assert(h.subrange(18, 26) =~= wire::be64(timestamp));
    assert(s.subrange(0, 2) =~= h.subrange(0, 2));
    assert(s.subrange(2, 4) =~= h.subrange(2, 4));
    assert(s.subrange(5, 7) =~= h.subrange(5, 7));
    assert(s.subrange(10, 18) =~= h.subrange(10, 18));
    assert(s.subrange(18, 26) =~= h.subrange(18, 26));
    assert(s[4] == h[4] && s[7] == h[7] && s[8] == h[8] && s[9] == h[9]);
    wire::lemma_rd16(s, 0, version);
    wire::lemma_rd16(s, 2, opts);
    wire::lemma_rd16(s, 5, batch);
    wire::lemma_rd64(s, 10, session);
    wire::lemma_rd64(s, 18, timestamp);
}

/// Appends a control header to `out`.
pub fn put_control(
    out: &mut Vec<u8>,
    version: u16,
    opts: u16,
    packet_type: u8,
    secondary: u8,
    extra: u16,
    session: u64,
    timestamp: u64,
)
    ensures
        final(out)@ == old(out)@ + control_image(
            version,
            opts,
            packet_type,
            secondary,
            extra,
            session,
            timestamp,
        ),
{
    wire::put_u16(out, version);
    wire::put_u16(out, opts);
    out.push(packet_type);
    out.push(secondary);
    wire::put_u16(out, extra);
    wire::put_u64(out, session);
    wire::put_u64(out, timestamp);
    assert(out@ =~= old(out)@ + control_image(
        version,
        opts,
        packet_type,
        secondary,
        extra,
        session,
        timestamp,
    ));
}

/// Appends a batch header to `out`.
pub fn put_batch(
    out: &mut Vec<u8>,
    version: u16,
    opts: u16,
    packet_type: u8,
    batch: u16,
    size: u8,
    pos: u8,
    recovery: u8,
    session: u64,
    timestamp: u64,
)
    ensures
        final(out)@ == old(out)@ + batch_image(
            version,
            opts,
            packet_type,
            batch,
            size,
            pos,
            recovery,
            session,
            timestamp,
        ),
{
    wire::put_u16(out, version);
    wire::put_u16(out, opts);
    out.push(packet_type);
    wire::put_u16(out, batch);
    out.push(size);
    out.push(pos);
    out.push(recovery);
    wire::put_u64(out, session);
    wire::put_u64(out, timestamp);
    assert(out@ =~= old(out)@ + batch_image(
        version,
        opts,
        packet_type,
        batch,
        size,
        pos,
        recovery,
        session,
        timestamp,
    ));
}

} // verus!
