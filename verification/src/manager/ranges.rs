//! Batch parameters and byte ranges: how losses are named on the wire.
use vstd::prelude::*;

use crate::manager::fields::{BytePosition, FecScheme, MAX_PAYLOAD_LENGTH};
use crate::packet_processor::serialize::Serialize;
use crate::wire;

verus! {

/// Where a packet stands in its batch.
#[derive(Debug, Clone, Copy, PartialEq, Eq, Structural)]
pub struct FECInfo {
    /// Number of data packets in the batch.
    pub batch_size: u8,
    /// Index of the packet in the batch.
    pub batch_pos: u8,
    /// Number of recovery packets of the batch.
    pub recovery_count: u8,
}

impl FECInfo {
    /// The given place in a batch.
    pub fn new(batch_size: u8, batch_pos: u8, recovery_size: u8) -> (f: Self)
        requires
            batch_pos < batch_size,
            recovery_size <= batch_size,
        ensures
            f == (FECInfo { batch_size, batch_pos, recovery_count: recovery_size }),
    {
        FECInfo { batch_size, batch_pos, recovery_count: recovery_size }
    }
}

impl Serialize for FECInfo {
    open spec fn image(&self) -> Seq<u8> {
        seq![self.batch_size, self.batch_pos, self.recovery_count]
    }

    open spec fn decodes(bytes: Seq<u8>) -> bool {
        bytes.len() >= 3
    }

    open spec fn decoded_from(&self, bytes: Seq<u8>) -> bool {
        *self == (FECInfo { batch_size: bytes[0], batch_pos: bytes[1], recovery_count: bytes[2] })
    }

    open spec fn writable(&self) -> bool {
        true
    }

    proof fn image_decodes(&self) {
    }

    fn put(&self, out: &mut Vec<u8>) {
        out.push(self.batch_size);
        out.push(self.batch_pos);
        out.push(self.recovery_count);
        assert(out@ =~= old(out)@ + self.image());
    }

    fn sized(&self) -> usize {
        3
    }

    fn deserialize(bytes: &[u8]) -> Result<Self, ()> {
        if bytes.len() < 3 {
            return Err(());
        }
        Ok(FECInfo { batch_size: bytes[0], batch_pos: bytes[1], recovery_count: bytes[2] })
    }
}

/// The recovery scheme of a stream, as the receiver chose it.
#[derive(Debug, Clone, Copy, PartialEq, Eq, Structural)]
pub struct FecConfig {
    pub scheme: FecScheme,
    pub recovery_count: u8,
    pub batch_size: u8,
}

/// A range of bytes of a stream.
#[derive(Debug, Clone, Copy, PartialEq, Eq, Structural)]
pub struct ByteRange {
    pub start: BytePosition,
    pub length: u16,
}

/// Number of bytes of a range on the wire.
pub const BYTE_RANGE_SIZE: usize = 6;

impl ByteRange {
    /// The position after the last byte.
    pub open spec fn end(self) -> int {
        self.start.0 + self.length
    }

    /// Whether the range ends within the positions there are.
    pub open spec fn fits(self) -> bool {
        self.end() <= u32::MAX
    }

    /// Whether the range holds byte `b`.
    pub open spec fn has(self, b: int) -> bool {
        self.start.0 <= b < self.end()
    }

    /// Whether one range starts where the other ends.
    pub open spec fn touches(self, other: ByteRange) -> bool {
        self.end() == other.start.0 || other.end() == self.start.0
    }

    /// Whether the two ranges make one range that is not too long.
    pub open spec fn joins(self, other: ByteRange) -> bool {
        self.touches(other) && self.length + other.length <= u16::MAX
    }

    /// The two ranges as one.
    pub open spec fn joined(self, other: ByteRange) -> ByteRange {
        ByteRange {
            start: if other.end() == self.start.0 {
                other.start
            } else {
                self.start
            },
            length: (self.length + other.length) as u16,
        }
    }

    /// The range of `length` bytes from `start` on. Longer ranges are made by
    /// [`ByteRange::concat`].
    pub fn new(start: BytePosition, length: u16) -> (r: Self)
        requires
            length <= MAX_PAYLOAD_LENGTH,
        ensures
            r == (ByteRange { start, length }),
    {
        ByteRange { start, length }
    }

    /// Takes in a range that touches this one. Says whether it did: the lengths may
    /// be too much together, and then nothing changes.
    pub fn concat(&mut self, other: &ByteRange) -> (joined: bool)
        requires
            old(self).touches(*other),
        ensures
            joined == old(self).joins(*other),
            *final(self) == (if joined {
                old(self).joined(*other)
            } else {
                *old(self)
            }),
    {
        match self.length.checked_add(other.length) {
            Some(res) => {
                let at: u32 = self.start.0;
                self.length = res;
                if other.start.0 as u64 + other.length as u64 == at as u64 {
                    self.start = other.start;
                }
                true
            },
            None => false,
        }
    }
}

/// A joined range holds exactly the bytes of the two.
pub proof fn joined_range_has_both(a: ByteRange, b: ByteRange, byte: int)
    requires
        a.joins(b),
    ensures
        a.joined(b).has(byte) <==> a.has(byte) || b.has(byte),
{
}

impl Serialize for ByteRange {
    open spec fn image(&self) -> Seq<u8> {
        wire::be32(self.start.0) + wire::be16(self.length)
    }

    open spec fn decodes(bytes: Seq<u8>) -> bool {
        bytes.len() >= 6
    }

    open spec fn decoded_from(&self, bytes: Seq<u8>) -> bool {
        self.start.0 == wire::rd32(bytes, 0) && self.length == wire::rd16(bytes, 4)
    }

    open spec fn writable(&self) -> bool {
        true
    }

    proof fn image_decodes(&self) {
        let s = self.image();
        assert(s.subrange(0, 4) =~= wire::be32(self.start.0));
        assert(s.subrange(4, 6) =~= wire::be16(self.length));
        wire::lemma_rd32(s, 0, self.start.0);
        wire::lemma_rd16(s, 4, self.length);
    }

    fn put(&self, out: &mut Vec<u8>) {
        wire::put_u32(out, self.start.0);
        wire::put_u16(out, self.length);
        assert(out@ =~= old(out)@ + self.image());
    }

    fn sized(&self) -> usize {
        6
    }

    fn deserialize(bytes: &[u8]) -> Result<Self, ()> {
        if bytes.len() < 6 {
            return Err(());
        }
        Ok(
            ByteRange {
                start: BytePosition(wire::get_u32(bytes, 0)),
                length: wire::get_u16(bytes, 4),
            },
        )
    }
}

/// The bytes of a list of ranges, one after the other.
pub open spec fn ranges_image(ranges: Seq<ByteRange>) -> Seq<u8>
    decreases ranges.len(),
{
    if ranges.len() == 0 {
        seq![]
    } else {
        ranges_image(ranges.drop_last()) + ranges.last().image()
    }
}

/// The ranges that `bytes` from `at` on spell: one for every six bytes.
pub open spec fn ranges_at(bytes: Seq<u8>, at: int) -> Seq<ByteRange> {
    Seq::new(
        ((bytes.len() - at) / 6) as nat,
        |i: int|
            ByteRange {
                start: BytePosition(wire::rd32(bytes, at + i * 6)),
                length: wire::rd16(bytes, at + i * 6 + 4),
            },
    )
}

pub proof fn lemma_ranges_image_len(ranges: Seq<ByteRange>)
    ensures
        ranges_image(ranges).len() == ranges.len() * 6,
    decreases ranges.len(),
{
    if ranges.len() > 0 {
        lemma_ranges_image_len(ranges.drop_last());
    }
}

pub proof fn lemma_ranges_image_at(ranges: Seq<ByteRange>, i: int)
    requires
        0 <= i < ranges.len(),
    ensures
        ranges_image(ranges).len() == ranges.len() * 6,
        ranges_image(ranges).subrange(i * 6, i * 6 + 6) == ranges[i].image(),
    decreases ranges.len(),
{
    lemma_ranges_image_len(ranges);
    lemma_ranges_image_len(ranges.drop_last());
    if i < ranges.len() - 1 {
        lemma_ranges_image_at(ranges.drop_last(), i);
        assert(ranges_image(ranges).subrange(i * 6, i * 6 + 6) =~= ranges_image(
            ranges.drop_last(),
        ).subrange(i * 6, i * 6 + 6));
    } else {
        assert(ranges_image(ranges).subrange(i * 6, i * 6 + 6) =~= ranges[i].image());
    }
}

/// Reading the ranges where they were written, at the end of some bytes, gives the
/// ranges.
pub proof fn ranges_round_trip(head: Seq<u8>, ranges: Seq<ByteRange>)
    ensures
        ranges_at(head + ranges_image(ranges), head.len() as int) == ranges,
{
    lemma_ranges_image_len(ranges);
    let s = head + ranges_image(ranges);
    let at = head.len() as int;
    assert forall|i: int| 0 <= i < ranges.len() implies ranges_at(s, at)[i] == ranges[i] by {
        lemma_ranges_image_at(ranges, i);
        let im = ranges_image(ranges).subrange(i * 6, i * 6 + 6);
        assert(im.subrange(0, 4) =~= wire::be32(ranges[i].start.0));
        assert(im.subrange(4, 6) =~= wire::be16(ranges[i].length));
        assert(s.subrange(at + i * 6, at + i * 6 + 4) =~= im.subrange(0, 4));
        assert(s.subrange(at + i * 6 + 4, at + i * 6 + 6) =~= im.subrange(4, 6));
        wire::lemma_rd32(s, at + i * 6, ranges[i].start.0);
        wire::lemma_rd16(s, at + i * 6 + 4, ranges[i].length);
    }
    assert(ranges_at(s, at) =~= ranges);
}

/// Appends the bytes of `ranges` to `out`.
pub fn put_ranges(out: &mut Vec<u8>, ranges: &Vec<ByteRange>)
    ensures
        final(out)@ == old(out)@ + ranges_image(ranges@),
{
    let mut i: usize = 0;
    assert(ranges@.take(0) =~= seq![]);
    assert(out@ =~= old(out)@ + ranges_image(ranges@.take(0)));
    while i < ranges.len()
        invariant
            i <= ranges.len(),
            out@ == old(out)@ + ranges_image(ranges@.take(i as int)),
        decreases ranges.len() - i,
    {
        ranges[i].put(out);
        i += 1;
        assert(ranges@.take(i as int).drop_last() =~= ranges@.take(i - 1));
        assert(out@ =~= old(out)@ + ranges_image(ranges@.take(i as int)));
    }
    assert(ranges@.take(i as int) =~= ranges@);
}

/// Reads the ranges in `bytes` from `at` on. Fails where the bytes do not make up one range;
/// bytes that are left over are ignored.
pub fn get_ranges(bytes: &[u8], at: usize) -> (r: Result<Vec<ByteRange>, ()>)
    requires
        at <= bytes.len(),
    ensures
        r is Ok <==> bytes.len() - at >= 6,
        r matches Ok(ranges) ==> ranges@ == ranges_at(bytes@, at as int),
{
    if bytes.len() - at < 6 {
        return Err(());
    }
    let mut ranges: Vec<ByteRange> = Vec::new();
    let n: usize = (bytes.len() - at) / 6;
    let mut i: usize = 0;
    while i < n
        invariant
            i <= n,
            at <= bytes.len(),
            n == (bytes.len() - at) / 6,
            ranges@ =~= ranges_at(bytes@, at as int).take(i as int),
        decreases n - i,
    {
        ranges.push(
            ByteRange {
                start: BytePosition(wire::get_u32(bytes, at + i * 6)),
                length: wire::get_u16(bytes, at + i * 6 + 4),
            },
        );
        i += 1;
    }
    assert(ranges@ =~= ranges_at(bytes@, at as int));
    Ok(ranges)
}

/// The chunk-sized parts of a range; the last one may be shorter.
pub open spec fn chunks_of(range: ByteRange) -> Seq<ByteRange> {
    Seq::new(
        ((range.length + MAX_PAYLOAD_LENGTH - 1) / MAX_PAYLOAD_LENGTH as int) as nat,
        |i: int|
            ByteRange {
                start: BytePosition((range.start.0 + i * MAX_PAYLOAD_LENGTH) as u32),
                length: if range.length - i * MAX_PAYLOAD_LENGTH < MAX_PAYLOAD_LENGTH {
                    (range.length - i * MAX_PAYLOAD_LENGTH) as u16
                } else {
                    MAX_PAYLOAD_LENGTH as u16
                },
            },
    )
}

/// Breaks a range into chunk-sized parts.
pub fn split_range_into_chunks(range: ByteRange) -> (chunks: Vec<ByteRange>)
    requires
        range.fits(),
    ensures
        chunks@ == chunks_of(range),
{
    let start: u32 = range.start.0;
    let end: u32 = start + range.length as u32;
    let mut chunks: Vec<ByteRange> = Vec::new();
    let mut pos: u32 = start;
    let ghost mut i: int = 0;
    while pos < end
        invariant
            range.fits(),
            start == range.start.0,
            end == range.end(),
            0 <= i <= chunks_of(range).len(),
            pos == (if i * MAX_PAYLOAD_LENGTH < range.length {
                start + i * MAX_PAYLOAD_LENGTH
            } else {
                end as int
            }),
            chunks@ =~= chunks_of(range).take(i),
            pos < end ==> i < chunks_of(range).len(),
            pos >= end ==> i == chunks_of(range).len(),
        decreases end - pos,
    {
        let left: u32 = end - pos;
        let len: u32 = if left < MAX_PAYLOAD_LENGTH as u32 {
            left
        } else {
            MAX_PAYLOAD_LENGTH as u32
        };
        chunks.push(ByteRange::new(BytePosition(pos), len as u16));
        pos += len;
        proof {
            i = i + 1;
        }
    }
    assert(chunks@ =~= chunks_of(range));
    chunks
}

/// The parts of a range hold exactly its bytes, each of them at most a chunk long.
pub proof fn chunks_cover_range(range: ByteRange, byte: int)
    requires
        range.fits(),
    ensures
        range.has(byte) <==> exists|i: int|
            0 <= i < chunks_of(range).len() && (#[trigger] chunks_of(range)[i]).has(byte),
        forall|i: int|
            0 <= i < chunks_of(range).len() ==> 0 < (#[trigger] chunks_of(range)[i]).length
                <= MAX_PAYLOAD_LENGTH,
{
    if range.has(byte) {
        let i = (byte - range.start.0) / MAX_PAYLOAD_LENGTH as int;
        assert(chunks_of(range)[i].has(byte));
    }
}

/// The chunk at a position.
pub open spec fn chunk_range(position: BytePosition) -> ByteRange {
    ByteRange { start: position, length: MAX_PAYLOAD_LENGTH as u16 }
}

/// `current` and the chunks at `rest`, neighbours joined as long as a range can
/// hold them.
pub open spec fn coalesced_from(current: ByteRange, rest: Seq<BytePosition>) -> Seq<ByteRange>
    decreases rest.len(),
{
    if rest.len() == 0 {
        seq![current]
    } else {
        let next = chunk_range(rest.first());
        if current.joins(next) {
            coalesced_from(current.joined(next), rest.drop_first())
        } else {
            seq![current] + coalesced_from(next, rest.drop_first())
        }
    }
}

/// The chunks at `positions` as ranges, neighbours joined.
pub open spec fn coalesced(positions: Seq<BytePosition>) -> Seq<ByteRange> {
    if positions.len() == 0 {
        seq![]
    } else {
        coalesced_from(chunk_range(positions.first()), positions.drop_first())
    }
}

/// Whether one of `ranges` holds byte `b`.
pub open spec fn ranges_have(ranges: Seq<ByteRange>, b: int) -> bool {
    exists|k: int| 0 <= k < ranges.len() && (#[trigger] ranges[k]).has(b)
}

/// Whether one of the chunks at `positions` holds byte `b`.
pub open spec fn positions_have(positions: Seq<BytePosition>, b: int) -> bool {
    exists|k: int| 0 <= k < positions.len() && chunk_range(#[trigger] positions[k]).has(b)
}

/// Merges the chunks at `positions` into ranges, joining neighbours.
pub fn coalesce_byte_positions(positions: Vec<BytePosition>) -> (ranges: Vec<ByteRange>)
    ensures
        ranges@ == coalesced(positions@),
{
    let mut out: Vec<ByteRange> = Vec::new();
    if positions.len() == 0 {
        return out;
    }
    let mut current: ByteRange = ByteRange::new(positions[0], MAX_PAYLOAD_LENGTH as u16);
    let mut i: usize = 1;
    assert(positions@.skip(1) =~= positions@.drop_first());
    while i < positions.len()
        invariant
            1 <= i <= positions.len(),
            coalesced(positions@) =~= out@ + coalesced_from(current, positions@.skip(i as int)),
        decreases positions.len() - i,
    {
        let next: ByteRange = ByteRange::new(positions[i], MAX_PAYLOAD_LENGTH as u16);
        let ghost rest = positions@.skip(i as int);
        assert(rest.first() == positions@[i as int]);
        assert(rest.drop_first() =~= positions@.skip(i + 1));
        let touches: bool = current.start.0 as u64 + current.length as u64 == next.start.0 as u64
            || next.start.0 as u64 + next.length as u64 == current.start.0 as u64;
        let before: ByteRange = current;
        if !touches || !current.concat(&next) {
            out.push(before);
            current = next;
        }
        i += 1;
    }
    assert(positions@.skip(i as int) =~= seq![]);
    out.push(current);
    out
}

/// The merged ranges hold exactly the bytes of the chunks that were merged.
pub proof fn coalesced_covers_positions(positions: Seq<BytePosition>, b: int)
    ensures
        ranges_have(coalesced(positions), b) <==> positions_have(positions, b),
{
    if positions.len() > 0 {
        let first = chunk_range(positions.first());
        let rest = positions.drop_first();
        lemma_coalesced_from(first, rest, b);
        if positions_have(positions, b) {
            let k = choose|k: int|
                0 <= k < positions.len() && chunk_range(#[trigger] positions[k]).has(b);
            if k > 0 {
                assert(rest[k - 1] == positions[k]);
            }
        }
        if positions_have(rest, b) {
            let k = choose|k: int| 0 <= k < rest.len() && chunk_range(#[trigger] rest[k]).has(b);
            assert(positions[k + 1] == rest[k]);
        }
        if first.has(b) {
            assert(chunk_range(positions[0]).has(b));
        }
    }
}

proof fn lemma_coalesced_from(current: ByteRange, rest: Seq<BytePosition>, b: int)
    ensures
        ranges_have(coalesced_from(current, rest), b) <==> current.has(b) || positions_have(rest, b),
    decreases rest.len(),
{
    if rest.len() == 0 {
        assert(coalesced_from(current, rest)[0] == current);
    } else {
        let next = chunk_range(rest.first());
        let tail = rest.drop_first();
        if positions_have(rest, b) {
            let k = choose|k: int| 0 <= k < rest.len() && chunk_range(#[trigger] rest[k]).has(b);
            if k > 0 {
                assert(tail[k - 1] == rest[k]);
            }
        }
        if positions_have(tail, b) {
            let k = choose|k: int| 0 <= k < tail.len() && chunk_range(#[trigger] tail[k]).has(b);
            assert(rest[k + 1] == tail[k]);
        }
        if next.has(b) {
            assert(chunk_range(rest[0]).has(b));
        }
        if current.joins(next) {
            lemma_coalesced_from(current.joined(next), tail, b);
            joined_range_has_both(current, next, b);
        } else {
            lemma_coalesced_from(next, tail, b);
            let more = coalesced_from(next, tail);
            let all = seq![current] + more;
            if ranges_have(more, b) {
                let k = choose|k: int| 0 <= k < more.len() && (#[trigger] more[k]).has(b);
                assert(all[k + 1] == more[k]);
            }
            if ranges_have(all, b) {
                let k = choose|k: int| 0 <= k < all.len() && (#[trigger] all[k]).has(b);
                if k > 0 {
                    assert(more[k - 1] == all[k]);
                }
            }
            if current.has(b) {
                assert(all[0].has(b));
            }
        }
    }
}

} // verus!
