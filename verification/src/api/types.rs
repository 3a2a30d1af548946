//! The buffers at the two ends of a stream, and the rule by which a receiver
//! picks the holes it asks its peer to send again.
use vstd::prelude::*;

use std::ops::Range;

use crate::manager::packets::{BytePosition, MAX_PAYLOAD_LENGTH};
use crate::wire;

verus! {

/// Owned stream storage.
#[derive(Debug)]
pub struct Buffer(Vec<u8>);

impl View for Buffer {
    type V = Seq<u8>;

    closed spec fn view(&self) -> Seq<u8> {
        self.0@
    }
}

impl Buffer {
    /// Takes over `bytes` as storage.
    pub fn new(bytes: Vec<u8>) -> (b: Self)
        ensures
            b@ == bytes@,
    {
        Buffer(bytes)
    }

    /// Number of bytes stored.
    pub fn len(&self) -> (n: usize)
        ensures
            n == self@.len(),
    {
        self.0.len()
    }

    /// Hands the storage back.
    pub fn into_vec(self) -> (v: Vec<u8>)
        ensures
            v@ == self@,
    {
        self.0
    }

    /// Copies `bytes` over the storage from `at` on.
    fn put(&mut self, at: usize, bytes: &[u8])
        requires
            at + bytes@.len() <= old(self)@.len(),
        ensures
            final(self)@ == overwrite(old(self)@, at as int, bytes@),
    {
        let mut i: usize = 0;
        while i < bytes.len()
            invariant
                i <= bytes.len(),
                at + bytes@.len() <= old(self)@.len(),
                self@ == overwrite(old(self)@, at as int, bytes@.subrange(0, i as int)),
                self@.len() == old(self)@.len(),
            decreases bytes.len() - i,
        {
            let b: u8 = bytes[i];
            assert(at + i < self.0.len());
            self.0.set(at + i, b);
            i += 1;
            assert(self@ =~= overwrite(old(self)@, at as int, bytes@.subrange(0, i as int)));
        }
        assert(bytes@.subrange(0, bytes@.len() as int) =~= bytes@);
    }
}

/// `data` with `bytes` laid over it from `at` on.
pub open spec fn overwrite(data: Seq<u8>, at: int, bytes: Seq<u8>) -> Seq<u8> {
    Seq::new(
        data.len(),
        |i: int| if at <= i < at + bytes.len() { bytes[i - at] } else { data[i] },
    )
}

/// A fraction, as scores are compared without rounding.
#[derive(Debug, Clone, Copy, PartialEq, Eq, Structural)]
pub struct Score {
    pub num: u128,
    pub den: u128,
}

impl Score {
    /// Whether `self` is at least `other` as a fraction.
    pub open spec fn ge(self, other: Score) -> bool {
        self.num * other.den >= other.num * self.den
    }

    /// Whether `self` is larger than `other` as a fraction.
    pub open spec fn gt(self, other: Score) -> bool {
        self.num * other.den > other.num * self.den
    }
}

/// Bound on numerators and denominators of scores: one factor for the urgency,
/// one for the confidence.
pub open spec fn score_bound() -> int {
    0x1_0000_0000_0000
}

/// A run of chunks that have not arrived, from `start` up to but not including
/// `end`.
#[derive(Debug, Clone, Copy, PartialEq, Eq, Structural)]
pub struct Area {
    pub start: usize,
    pub end: usize,
}

/// Distance, in chunks past the head, at which urgency has fallen to a half.
pub const URGENCY_DECAY_CHUNKS: u128 = 4;

/// Size, in chunks, at which a hole before the head would reach urgency one.
pub const BEFORE_HEAD_SIZE_DENOM: u128 = 8;

/// Numerator of the highest urgency of a hole before the head, in tenths.
pub const BEFORE_HEAD_URGENCY_CAP_TENTHS: u128 = 9;

/// Number of later arrivals at which confidence in a loss is a half.
pub const CONFIDENCE_HALF_SAT_CHUNKS: u128 = 4;

impl Area {
    /// Size limit that keeps scores within [`score_bound`].
    pub open spec fn small(self) -> bool {
        self.start <= self.end <= 0x40_0000
    }

    /// How much the hole is wanted, whether or not it is a loss: at and past the
    /// head `1 / (1 + distance / 4)`, before the head an eighth per chunk but
    /// never more than nine tenths.
    pub open spec fn urgency_spec(self, head_chunk: int) -> (int, int) {
        if self.start >= head_chunk {
            (4, 4 + (self.start - head_chunk))
        } else if (self.end - self.start) * 10 <= 9 * 8 {
            (self.end - self.start, 8)
        } else {
            (9, 10)
        }
    }

    /// How sure it is that the hole is a loss: `v / (v + 4)` for `v` chunks that
    /// arrived past it.
    pub open spec fn confidence_spec(self, total_chunks: int, later_invalid: int) -> (int, int) {
        let past = total_chunks - self.end - later_invalid;
        let v = if past < 0 {
            0
        } else {
            past
        };
        (v, v + 4)
    }

    /// Urgency times confidence.
    pub open spec fn score_spec(self, head_chunk: int, total_chunks: int, later_invalid: int) -> Score {
        let u = self.urgency_spec(head_chunk);
        let c = self.confidence_spec(total_chunks, later_invalid);
        Score { num: (u.0 * c.0) as u128, den: (u.1 * c.1) as u128 }
    }

    fn update_end(&mut self, end: usize)
        ensures
            *final(self) == (Area { start: old(self).start, end: end }),
    {
        self.end = end;
    }

    fn update_start(&mut self, start: usize)
        ensures
            *final(self) == (Area { start: start, end: old(self).end }),
    {
        self.start = start;
    }

    /// The chunks of the hole.
    pub fn range(&self) -> (r: Range<usize>)
        ensures
            r.start == self.start,
            r.end == self.end,
    {
        self.start..self.end
    }

    /// How much the hole is wanted, whether or not it is a loss.
    pub fn urgency(&self, head_chunk: usize) -> (u: Score)
        requires
            self.start <= self.end,
        ensures
            u.num == self.urgency_spec(head_chunk as int).0,
            u.den == self.urgency_spec(head_chunk as int).1,
            0 <= u.num <= u.den,
            0 < u.den,
            self.small() ==> u.den < 0x100_0000,
    {
        if self.start >= head_chunk {
            Score {
                num: URGENCY_DECAY_CHUNKS,
                den: URGENCY_DECAY_CHUNKS + (self.start - head_chunk) as u128,
            }
        } else {
            let size: u128 = (self.end - self.start) as u128;
            if size * 10 <= BEFORE_HEAD_URGENCY_CAP_TENTHS * BEFORE_HEAD_SIZE_DENOM {
                Score { num: size, den: BEFORE_HEAD_SIZE_DENOM }
            } else {
                Score { num: BEFORE_HEAD_URGENCY_CAP_TENTHS, den: 10 }
            }
        }
    }

    /// How sure it is that the hole is a loss and not just late.
    pub fn confidence_lost(&self, total_chunks: usize, later_invalid: usize) -> (c: Score)
        ensures
            c.num == self.confidence_spec(total_chunks as int, later_invalid as int).0,
            c.den == self.confidence_spec(total_chunks as int, later_invalid as int).1,
            c.num < c.den,
            total_chunks <= 0x40_0000 ==> c.den < 0x100_0000,
    {
        let valid_past: u128 = total_chunks.saturating_sub(self.end).saturating_sub(
            later_invalid,
        ) as u128;
        Score { num: valid_past, den: valid_past + CONFIDENCE_HALF_SAT_CHUNKS }
    }

    /// Urgency times confidence.
    fn score(&self, head_chunk: usize, total_chunks: usize, later_invalid: usize) -> (s: Score)
        requires
            self.small(),
            total_chunks <= 0x40_0000,
        ensures
            s == self.score_spec(head_chunk as int, total_chunks as int, later_invalid as int),
            s.num <= s.den,
            0 < s.den < score_bound(),
    {
        let u: Score = self.urgency(head_chunk);
        let c: Score = self.confidence_lost(total_chunks, later_invalid);
        assert(u.num * c.num <= u.den * c.den) by (nonlinear_arith)
            requires
                u.num <= u.den,
                c.num <= c.den,
        ;
        assert(0 < u.den * c.den < 0x100_0000 * 0x100_0000) by (nonlinear_arith)
            requires
                0 < u.den < 0x100_0000,
                0 < c.den < 0x100_0000,
        ;
        Score { num: u.num * c.num, den: u.den * c.den }
    }
}

/// What a receiving buffer holds: its bytes, the read position, and which of its
/// chunks have arrived.
#[verifier::ext_equal]
pub struct WriteableView {
    pub data: Seq<u8>,
    pub head: int,
    pub filled: Seq<bool>,
}

/// Number of chunks that a buffer of `len` bytes is tracked in. Only the last may be short,
/// and none is empty.
pub open spec fn chunk_count(len: int) -> int {
    (len + MAX_PAYLOAD_LENGTH - 1) / MAX_PAYLOAD_LENGTH as int
}

/// First chunk from `i` on that has not arrived; the number of chunks if there is
/// none.
pub open spec fn first_gap(filled: Seq<bool>, i: int) -> int
    decreases filled.len() - i,
{
    if 0 <= i < filled.len() && filled[i] {
        first_gap(filled, i + 1)
    } else {
        i
    }
}

/// Whether `areas` lists the maximal runs of missing chunks, in order.
pub open spec fn lists_holes(areas: Seq<Area>, filled: Seq<bool>) -> bool {
    &&& forall|k: int|
        0 <= k < areas.len() ==> (#[trigger] areas[k]).start < areas[k].end <= filled.len()
    &&& forall|k: int, l: int|
        #![trigger areas[k], areas[l]]
        0 <= k < l < areas.len() ==> areas[k].end < areas[l].start
    &&& forall|k: int, i: int|
        #![trigger areas[k], filled[i]]
        0 <= k < areas.len() && areas[k].start <= i < areas[k].end ==> !filled[i]
    &&& forall|i: int|
        0 <= i < filled.len() && !(#[trigger] filled[i]) ==> exists|k: int|
            0 <= k < areas.len() && (#[trigger] areas[k]).start <= i < areas[k].end
}

/// The maximal runs of missing chunks, in order.
pub open spec fn holes_of(filled: Seq<bool>) -> Seq<Area> {
    choose|areas: Seq<Area>| lists_holes(areas, filled)
}

/// Total number of chunks in the areas from the `k`-th on.
pub open spec fn suffix_invalid(areas: Seq<Area>, k: int) -> int
    decreases areas.len() - k,
{
    if 0 <= k < areas.len() {
        areas[k].end - areas[k].start + suffix_invalid(areas, k + 1)
    } else {
        0
    }
}

/// Each hole with its score.
pub open spec fn scored_areas(areas: Seq<Area>, head: int, total: int) -> Seq<(Area, Score)> {
    Seq::new(
        areas.len(),
        |k: int|
            (
                areas[k],
                areas[k].score_spec(
                    head / MAX_PAYLOAD_LENGTH as int,
                    total,
                    suffix_invalid(areas, k + 1),
                ),
            ),
    )
}

/// The score below which a hole is not asked for: three tenths.
pub open spec fn reaches_threshold(s: Score) -> bool {
    s.num * 10 >= s.den * 3
}

/// Index of the best of the first `n` holes that reach the threshold, leaving out
/// `skip`; the earliest of equals.
pub open spec fn best_area(scored: Seq<(Area, Score)>, n: int, skip: int) -> Option<int>
    decreases n,
{
    if n <= 0 {
        None
    } else {
        let before = best_area(scored, n - 1, skip);
        let s = scored[n - 1].1;
        if n - 1 != skip && reaches_threshold(s) && (match before {
            Some(b) => s.gt(scored[b].1),
            None => true,
        }) {
            Some(n - 1)
        } else {
            before
        }
    }
}

/// The holes to ask for: the best two that reach the threshold, best first.
pub open spec fn top_areas(scored: Seq<(Area, Score)>) -> Seq<Area> {
    match best_area(scored, scored.len() as int, -1) {
        None => seq![],
        Some(a) => match best_area(scored, scored.len() as int, a) {
            None => seq![scored[a].0],
            Some(b) => seq![scored[a].0, scored[b].0],
        },
    }
}

/// Byte positions of the missing ones among the first `n` chunks.
pub open spec fn hole_positions(filled: Seq<bool>, n: int) -> Seq<BytePosition>
    decreases n,
{
    if n <= 0 {
        seq![]
    } else if filled[n - 1] {
        hole_positions(filled, n - 1)
    } else {
        hole_positions(filled, n - 1).push(
            BytePosition(((n - 1) * MAX_PAYLOAD_LENGTH) as u32),
        )
    }
}

/// Start of the run of missing chunks that ends just before chunk `i`.
pub open spec fn run_start(filled: Seq<bool>, i: int) -> int
    decreases i,
{
    if i <= 0 || filled[i - 1] {
        i
    } else {
        run_start(filled, i - 1)
    }
}

impl WriteableView {
    /// The invariant of a receiving buffer.
    pub open spec fn wf(self) -> bool {
        &&& self.filled.len() == chunk_count(self.data.len() as int)
        &&& self.data.len() <= u32::MAX
        &&& 0 <= self.head <= self.data.len()
        &&& self.head % MAX_PAYLOAD_LENGTH as int == 0 || (self.head == self.data.len()
            && self.filled.last())
    }

    /// A buffer into which nothing has been written.
    pub open spec fn fresh(data: Seq<u8>) -> WriteableView {
        WriteableView {
            data,
            head: 0,
            filled: Seq::new(chunk_count(data.len() as int) as nat, |i: int| false),
        }
    }

    /// The chunk that a byte position lies in; positions past the end have none. The end
    /// belongs to a last chunk that is short. Where all chunks are full, none stands there.
    pub open spec fn index_of(self, position: int) -> Option<int> {
        if position > self.data.len() || (position == self.data.len() && position
            % MAX_PAYLOAD_LENGTH as int == 0) {
            None
        } else {
            Some(position / MAX_PAYLOAD_LENGTH as int)
        }
    }

    /// Whether the head has reached the end.
    pub open spec fn at_end(self) -> bool {
        self.head >= self.data.len()
    }

    /// Whether every chunk has arrived and the head has reached the end.
    pub open spec fn done(self) -> bool {
        self.at_end() && forall|i: int| 0 <= i < self.filled.len() ==> self.filled[i]
    }

    /// The head moved over the chunks that have arrived.
    pub open spec fn advanced(self) -> WriteableView {
        let gap = first_gap(self.filled, self.head / MAX_PAYLOAD_LENGTH as int);
        WriteableView {
            head: if gap == self.filled.len() {
                self.data.len() as int
            } else {
                gap * MAX_PAYLOAD_LENGTH
            },
            ..self
        }
    }

    /// The chunk at `position` marked as arrived.
    pub open spec fn occupied(self, position: int) -> WriteableView {
        WriteableView {
            filled: self.filled.update(position / MAX_PAYLOAD_LENGTH as int, true),
            ..self
        }
    }

    /// Whether a payload of `n` bytes may be written at `position`: the position
    /// is in a chunk, which has not arrived, only a last chunk that is short may take
    /// another length than [`MAX_PAYLOAD_LENGTH`], and the payload fits.
    pub open spec fn accepts(self, position: int, n: int) -> bool {
        &&& self.index_of(position) is Some
        &&& !self.filled[position / MAX_PAYLOAD_LENGTH as int]
        &&& n == MAX_PAYLOAD_LENGTH || position / MAX_PAYLOAD_LENGTH as int == self.data.len()
            as int / MAX_PAYLOAD_LENGTH as int
        &&& position + n <= self.data.len()
    }

    /// `bytes` written at `position`.
    pub open spec fn written(self, position: int, bytes: Seq<u8>) -> WriteableView {
        WriteableView {
            data: overwrite(self.data, position, bytes),
            ..self.occupied(position)
        }.advanced()
    }

    /// The head moved forward to the chunk of `position`, if that is past it.
    pub open spec fn sought(self, position: int) -> WriteableView {
        if position <= self.data.len() && position > self.head {
            WriteableView {
                head: position / MAX_PAYLOAD_LENGTH as int * MAX_PAYLOAD_LENGTH,
                ..self
            }.advanced()
        } else {
            self
        }
    }
}

/// A buffer that a stream is received into.
#[derive(Debug)]
pub struct WriteableBuffer {
    buffer: Buffer,
    head: BytePosition,
    map: Vec<bool>,
    invalid_areas: Vec<Area>,
}

impl View for WriteableBuffer {
    type V = WriteableView;

    closed spec fn view(&self) -> WriteableView {
        WriteableView { data: self.buffer@, head: self.head.0 as int, filled: self.map@ }
    }
}

/// Most holes asked for at one time.
pub const MAX_REQUESTS_PER_TICK: usize = 2;

impl WriteableBuffer {
    /// The invariant: besides that of the view, the tracked areas are exactly the
    /// runs of missing chunks.
    pub closed spec fn wf(self) -> bool {
        &&& self@.wf()
        &&& lists_holes(self.invalid_areas@, self.map@)
    }

    /// The tracked runs of missing chunks.
    pub closed spec fn areas(self) -> Seq<Area> {
        self.invalid_areas@
    }

    /// What the invariant says of the view and of the tracked areas.
    pub proof fn lemma_wf(self)
        requires
            self.wf(),
        ensures
            self@.wf(),
            lists_holes(self.areas(), self@.filled),
    {
    }

    /// A buffer of `bytes`, none of which has arrived.
    pub fn new(bytes: Vec<u8>) -> (b: Self)
        requires
            bytes@.len() <= u32::MAX,
        ensures
            b.wf(),
            b@ == WriteableView::fresh(bytes@),
    {
        let num_chunks: usize = bytes.len() / MAX_PAYLOAD_LENGTH + if bytes.len()
            % MAX_PAYLOAD_LENGTH == 0 {
            0
        } else {
            1
        };
        assert(num_chunks == chunk_count(bytes@.len() as int));
        let mut map: Vec<bool> = Vec::new();
        let mut i: usize = 0;
        while i < num_chunks
            invariant
                i <= num_chunks,
                map@ == Seq::new(i as nat, |k: int| false),
            decreases num_chunks - i,
        {
            map.push(false);
            i += 1;
            assert(map@ =~= Seq::new(i as nat, |k: int| false));
        }
        let mut areas: Vec<Area> = Vec::new();
        if num_chunks > 0 {
            areas.push(Area { start: 0, end: num_chunks });
        }
        let b = WriteableBuffer {
            buffer: Buffer::new(bytes),
            head: BytePosition(0),
            map,
            invalid_areas: areas,
        };
        assert(b.map@ =~= b@.filled);
        assert forall|k: int| 0 <= k < b.map@.len() && !(#[trigger] b.map@[k]) implies exists|l: int|
            0 <= l < b.invalid_areas@.len() && (#[trigger] b.invalid_areas@[l]).start <= k
                < b.invalid_areas@[l].end by {
            assert(b.invalid_areas@[0].start <= k < b.invalid_areas@[0].end);
        }
        b
    }

    /// Length of the buffer in bytes.
    pub fn len(&self) -> (n: usize)
        ensures
            n == self@.data.len(),
    {
        self.buffer.len()
    }

    /// The read position.
    pub fn head(&self) -> (n: usize)
        ensures
            n == self@.head,
    {
        self.head.0 as usize
    }

    /// Hands the storage back.
    pub fn into_vec(self) -> (v: Vec<u8>)
        ensures
            v@ == self@.data,
    {
        self.buffer.into_vec()
    }

    /// A copy of the storage.
    pub fn to_vec(&self) -> (v: Vec<u8>)
        ensures
            v@ == self@.data,
    {
        let copy: Vec<u8> = wire::copy_range(self.buffer.0.as_slice(), 0, self.buffer.0.len());
        assert(copy@ =~= self@.data);
        copy
    }

    /// True when the buffer is fully filled: the head has reached the end and no
    /// chunk is missing.
    pub fn is_done(&self) -> (done: bool)
        requires
            self.wf(),
        ensures
            done == self@.done(),
    {
        if !self.head_at_end() {
            return false;
        }
        let mut i: usize = 0;
        while i < self.map.len()
            invariant
                i <= self.map.len(),
                forall|k: int| 0 <= k < i ==> self.map@[k],
            decreases self.map.len() - i,
        {
            if !self.map[i] {
                assert(!self@.filled[i as int]);
                return false;
            }
            i += 1;
        }
        true
    }

    /// True when the head has reached the end of the buffer. Chunks before it may
    /// still be missing.
    pub fn head_at_end(&self) -> (at_end: bool)
        ensures
            at_end == self@.at_end(),
    {
        self.head() >= self.len()
    }

    fn position_to_index(&self, position: BytePosition) -> (i: Option<usize>)
        requires
            self.wf(),
        ensures
            i is Some <==> self@.index_of(position.0 as int) is Some,
            i matches Some(i) ==> i == position.0 as int / MAX_PAYLOAD_LENGTH as int && i
                < self@.filled.len(),
    {
        let at: usize = position.0 as usize;
        if at > self.buffer.len() || (at == self.buffer.len() && at % MAX_PAYLOAD_LENGTH == 0) {
            None
        } else {
            Some(at / MAX_PAYLOAD_LENGTH)
        }
    }

    /// Whether the chunk at `position` has arrived; `None` where there is no chunk.
    pub fn position_occupied(&self, position: BytePosition) -> (r: Option<bool>)
        requires
            self.wf(),
        ensures
            r == (match self@.index_of(position.0 as int) {
                Some(i) => Some(self@.filled[i]),
                None => None,
            }),
    {
        match self.position_to_index(position) {
            Some(i) => Some(self.map[i]),
            None => None,
        }
    }

    /// Marks the chunk at `position` as arrived. There must be one, and it must be missing.
    pub fn occupy(&mut self, position: BytePosition)
        requires
            old(self).wf(),
            old(self)@.index_of(position.0 as int) is Some,
            !old(self)@.filled[position.0 as int / MAX_PAYLOAD_LENGTH as int],
        ensures
            final(self).wf(),
            final(self)@ == old(self)@.occupied(position.0 as int),
    {
        let i: usize = match self.position_to_index(position) {
            Some(i) => i,
            None => {
                return;
            },
        };
        let ghost areas0 = self.invalid_areas@;
        let ghost map0 = self.map@;
        self.map.set(i, true);
        let mut pos: usize = 0;
        while pos < self.invalid_areas.len() && !(self.invalid_areas[pos].start <= i && i
            < self.invalid_areas[pos].end)
            invariant
                pos <= self.invalid_areas.len(),
                self.invalid_areas@ == areas0,
                forall|k: int|
                    0 <= k < pos ==> !((#[trigger] areas0[k]).start <= i < areas0[k].end),
            decreases self.invalid_areas.len() - pos,
        {
            pos += 1;
        }
        proof {
            let k = choose|k: int|
                0 <= k < areas0.len() && (#[trigger] areas0[k]).start <= i < areas0[k].end;
            assert(pos <= k);
        }
        let start: usize = self.invalid_areas[pos].start;
        let end: usize = self.invalid_areas[pos].end;
        if start == i {
            if end == i + 1 {
                let _ = self.invalid_areas.remove(pos);
                proof {
                    lemma_hole_removed(areas0, map0, pos as int, i as int);
                    assert(self.invalid_areas@ =~= areas0.remove(pos as int));
                }
            } else {
                let mut area: Area = self.invalid_areas[pos];
                area.update_start(i + 1);
                self.invalid_areas.set(pos, area);
                proof {
                    lemma_hole_replaced(areas0, map0, pos as int, i as int, area);
                    assert(self.invalid_areas@ =~= areas0.update(pos as int, area));
                }
            }
        } else {
            let mut area: Area = self.invalid_areas[pos];
            area.update_end(i);
            self.invalid_areas.set(pos, area);
            if end - 1 != i {
                self.invalid_areas.insert(pos + 1, Area { start: i + 1, end });
                proof {
                    lemma_hole_split(areas0, map0, pos as int, i as int);
                    assert(self.invalid_areas@ =~= areas0.update(
                        pos as int,
                        Area { start, end: i },
                    ).insert(pos + 1, Area { start: (i + 1) as usize, end }));
                }
            } else {
                proof {
                    lemma_hole_replaced(areas0, map0, pos as int, i as int, area);
                    assert(self.invalid_areas@ =~= areas0.update(pos as int, area));
                }
            }
        }
    }
}

proof fn lemma_hole_removed(areas: Seq<Area>, filled: Seq<bool>, pos: int, i: int)
    requires
        lists_holes(areas, filled),
        0 <= pos < areas.len(),
        areas[pos].start == i,
        areas[pos].end == i + 1,
        0 <= i < filled.len(),
    ensures
        lists_holes(areas.remove(pos), filled.update(i, true)),
{
    let a = areas.remove(pos);
    let f = filled.update(i, true);
    assert forall|j: int| 0 <= j < f.len() && !(#[trigger] f[j]) implies exists|k: int|
        0 <= k < a.len() && (#[trigger] a[k]).start <= j < a[k].end by {
        assert(!filled[j]);
        let k = choose|k: int| 0 <= k < areas.len() && (#[trigger] areas[k]).start <= j < areas[k].end;
        assert(k != pos);
        if k < pos {
            assert(a[k] == areas[k]);
        } else {
            assert(a[k - 1] == areas[k]);
        }
    }
    assert forall|k: int, j: int|
        #![trigger a[k], f[j]]
        0 <= k < a.len() && a[k].start <= j < a[k].end implies !f[j] by {
        let l = if k < pos {
            k
        } else {
            k + 1
        };
        assert(a[k] == areas[l]);
        assert(!filled[j]);
        if l < pos {
            assert(areas[l].end < areas[pos].start);
        } else {
            assert(areas[pos].end < areas[l].start);
        }
    }
}

proof fn lemma_hole_replaced(areas: Seq<Area>, filled: Seq<bool>, pos: int, i: int, area: Area)
    requires
        lists_holes(areas, filled),
        0 <= pos < areas.len(),
        0 <= i < filled.len(),
        areas[pos].start <= i < areas[pos].end,
        ({
            ||| i == areas[pos].start && area.start == i + 1 && area.end == areas[pos].end
                && area.start < area.end
            ||| i == areas[pos].end - 1 && area.start == areas[pos].start && area.end == i
                && area.start < area.end
        }),
    ensures
        lists_holes(areas.update(pos, area), filled.update(i, true)),
{
    let a = areas.update(pos, area);
    let f = filled.update(i, true);
    assert forall|j: int| 0 <= j < f.len() && !(#[trigger] f[j]) implies exists|k: int|
        0 <= k < a.len() && (#[trigger] a[k]).start <= j < a[k].end by {
        assert(!filled[j]);
        let k = choose|k: int| 0 <= k < areas.len() && (#[trigger] areas[k]).start <= j < areas[k].end;
        assert(a[k].start <= j < a[k].end);
    }
    assert forall|k: int, j: int|
        #![trigger a[k], f[j]]
        0 <= k < a.len() && a[k].start <= j < a[k].end implies !f[j] by {
        assert(areas[k].start <= j < areas[k].end);
        assert(!filled[j]);
        if k < pos {
            assert(areas[k].end < areas[pos].start);
        } else if k > pos {
            assert(areas[pos].end < areas[k].start);
        }
    }
}

proof fn lemma_hole_split(areas: Seq<Area>, filled: Seq<bool>, pos: int, i: int)
    requires
        lists_holes(areas, filled),
        0 <= pos < areas.len(),
        0 <= i < filled.len(),
        areas[pos].start < i < areas[pos].end - 1,
    ensures
        lists_holes(
            areas.update(pos, Area { start: areas[pos].start, end: i as usize }).insert(
                pos + 1,
                Area { start: (i + 1) as usize, end: areas[pos].end },
            ),
            filled.update(i, true),
        ),
{
    let a = areas.update(pos, Area { start: areas[pos].start, end: i as usize }).insert(
        pos + 1,
        Area { start: (i + 1) as usize, end: areas[pos].end },
    );
    let f = filled.update(i, true);
    assert forall|k: int| 0 <= k < a.len() implies (#[trigger] a[k]).start < a[k].end <= f.len() by {
        if k > pos + 1 {
            assert(a[k] == areas[k - 1]);
        } else if k < pos {
            assert(a[k] == areas[k]);
        }
    }
    assert forall|k: int, l: int|
        #![trigger a[k], a[l]]
        0 <= k < l < a.len() implies a[k].end < a[l].start by {
        let k0 = if k <= pos {
            k
        } else {
            k - 1
        };
        let l0 = if l <= pos {
            l
        } else {
            l - 1
        };
        if k0 < l0 {
            assert(areas[k0].end < areas[l0].start);
        }
    }
    assert forall|j: int| 0 <= j < f.len() && !(#[trigger] f[j]) implies exists|k: int|
        0 <= k < a.len() && (#[trigger] a[k]).start <= j < a[k].end by {
        assert(!filled[j]);
        let k = choose|k: int| 0 <= k < areas.len() && (#[trigger] areas[k]).start <= j < areas[k].end;
        if k < pos {
            assert(a[k].start <= j < a[k].end);
        } else if k > pos {
            assert(a[k + 1].start <= j < a[k + 1].end);
        } else if j < i {
            assert(a[pos].start <= j < a[pos].end);
        } else {
            assert(a[pos + 1].start <= j < a[pos + 1].end);
        }
    }
    assert forall|k: int, j: int|
        #![trigger a[k], f[j]]
        0 <= k < a.len() && a[k].start <= j < a[k].end implies !f[j] by {
        let k0 = if k <= pos {
            k
        } else {
            k - 1
        };
        assert(areas[k0].start <= j < areas[k0].end);
        assert(!filled[j]);
        if k0 < pos {
            assert(areas[k0].end < areas[pos].start);
        } else if k0 > pos {
            assert(areas[pos].end < areas[k0].start);
        }
    }
}

proof fn lemma_first_gap(filled: Seq<bool>, i: int)
    requires
        0 <= i <= filled.len(),
    ensures
        i <= first_gap(filled, i) <= filled.len(),
        forall|k: int| i <= k < first_gap(filled, i) ==> filled[k],
        first_gap(filled, i) < filled.len() ==> !filled[first_gap(filled, i)],
    decreases filled.len() - i,
{
    if i < filled.len() && filled[i] {
        lemma_first_gap(filled, i + 1);
    }
}

proof fn lemma_suffix_invalid(areas: Seq<Area>, filled: Seq<bool>, k: int)
    requires
        lists_holes(areas, filled),
        0 <= k <= areas.len(),
    ensures
        0 <= suffix_invalid(areas, k),
        k < areas.len() ==> suffix_invalid(areas, k) <= filled.len() - areas[k].start,
        k == areas.len() ==> suffix_invalid(areas, k) == 0,
    decreases areas.len() - k,
{
    if k < areas.len() {
        lemma_suffix_invalid(areas, filled, k + 1);
        if k + 1 < areas.len() {
            assert(areas[k].end < areas[k + 1].start);
        }
    }
}

proof fn lemma_area_starts(areas: Seq<Area>, filled: Seq<bool>, k: int)
    requires
        lists_holes(areas, filled),
        0 <= k < areas.len(),
    ensures
        k <= areas[k].start,
    decreases k,
{
    if k > 0 {
        lemma_area_starts(areas, filled, k - 1);
        assert(areas[k - 1].end < areas[k].start);
    }
}

proof fn lemma_run_start(filled: Seq<bool>, i: int)
    requires
        0 <= i <= filled.len(),
    ensures
        0 <= run_start(filled, i) <= i,
    decreases i,
{
    if i > 0 && !filled[i - 1] {
        lemma_run_start(filled, i - 1);
    }
}

impl WriteableBuffer {
    /// Moves the head over the chunks that have arrived.
    pub fn advance_head(&mut self)
        requires
            old(self).wf(),
        ensures
            final(self).wf(),
            final(self)@ == old(self)@.advanced(),
            final(self).areas() == old(self).areas(),
    {
        let ghost i0 = self.head.0 as int / MAX_PAYLOAD_LENGTH as int;
        let mut i: usize = self.head.0 as usize / MAX_PAYLOAD_LENGTH;
        proof {
            lemma_first_gap(self.map@, i0);
        }
        while i < self.map.len() && self.map[i]
            invariant
                0 <= i0 <= i <= self.map.len(),
                self.map@ == old(self).map@,
                first_gap(self.map@, i0) == first_gap(self.map@, i as int),
            decreases self.map.len() - i,
        {
            i += 1;
        }
        if i == self.map.len() {
            self.head = BytePosition(self.buffer.len() as u32);
        } else {
            assert(i * MAX_PAYLOAD_LENGTH <= self.buffer@.len());
            self.head = BytePosition((i * MAX_PAYLOAD_LENGTH) as u32);
        }
    }

    /// Moves the head forward to the chunk of `pos`. Says whether it moved; `None`
    /// past the end. A seek backwards leaves the head where it is, so that holes
    /// before it are still seen.
    pub fn seek_head(&mut self, pos: BytePosition) -> (r: Option<bool>)
        requires
            old(self).wf(),
        ensures
            final(self).wf(),
            final(self)@ == old(self)@.sought(pos.0 as int),
            final(self).areas() == old(self).areas(),
            r == (if pos.0 > old(self)@.data.len() {
                None
            } else {
                Some(pos.0 > old(self)@.head)
            }),
    {
        if pos.0 as usize > self.len() {
            return None;
        }
        let i: usize = pos.0 as usize / MAX_PAYLOAD_LENGTH;
        if pos.0 > self.head.0 {
            assert(i * MAX_PAYLOAD_LENGTH <= pos.0);
            self.head = BytePosition((i * MAX_PAYLOAD_LENGTH) as u32);
            self.advance_head();
            Some(true)
        } else {
            Some(false)
        }
    }

    /// Where the run of missing chunks that ends just before the chunk of `from`
    /// starts; `None` past the end.
    pub fn last_occupied_pos(&self, from: BytePosition) -> (r: Option<BytePosition>)
        requires
            self.wf(),
        ensures
            r == (if from.0 > self@.data.len() {
                None
            } else {
                let i = from.0 as int / MAX_PAYLOAD_LENGTH as int;
                Some(BytePosition((run_start(self@.filled, i) * MAX_PAYLOAD_LENGTH) as u32))
            }),
    {
        if from.0 as usize > self.len() {
            return None;
        }
        let mut i: usize = from.0 as usize / MAX_PAYLOAD_LENGTH;
        let ghost i0 = i as int;
        proof {
            lemma_run_start(self.map@, i0);
        }
        while i > 0 && !self.map[i - 1]
            invariant
                0 <= i <= i0 <= self.map.len(),
                run_start(self.map@, i0) == run_start(self.map@, i as int),
            decreases i,
        {
            i -= 1;
        }
        assert(i * MAX_PAYLOAD_LENGTH <= from.0);
        Some(BytePosition((i * MAX_PAYLOAD_LENGTH) as u32))
    }

    /// The byte positions of the chunks that end at or before `until`, full chunks all of
    /// them, and are missing, in order.
    pub fn find_holes(&self, until: BytePosition) -> (holes: Vec<BytePosition>)
        requires
            self.wf(),
        ensures
            holes@ == hole_positions(
                self@.filled,
                (if until.0 < self@.data.len() {
                    until.0 as int
                } else {
                    self@.data.len() as int
                }) / MAX_PAYLOAD_LENGTH as int,
            ),
    {
        let limit: u32 = if (until.0 as usize) < self.len() {
            until.0
        } else {
            self.len() as u32
        };
        let mut holes: Vec<BytePosition> = Vec::new();
        let end: usize = limit as usize / MAX_PAYLOAD_LENGTH;
        let mut i: usize = 0;
        while i < end
            invariant
                i <= end <= self.map.len(),
                self.wf(),
                holes@ == hole_positions(self.map@, i as int),
            decreases end - i,
        {
            if !self.map[i] {
                assert(i * MAX_PAYLOAD_LENGTH <= self.buffer@.len());
                holes.push(BytePosition((i * MAX_PAYLOAD_LENGTH) as u32));
            }
            i += 1;
        }
        holes
    }

    /// Every hole with its score, in order of position.
    pub fn score_areas(&self) -> (scored: Vec<(Area, Score)>)
        requires
            self.wf(),
        ensures
            scored@ == scored_areas(self.areas(), self@.head, self@.filled.len() as int),
            forall|k: int|
                0 <= k < scored@.len() ==> (#[trigger] scored@[k]).1.num <= scored@[k].1.den && 0
                    < scored@[k].1.den < score_bound(),
    {
        let head_chunk: usize = self.head.0 as usize / MAX_PAYLOAD_LENGTH;
        let total: usize = self.map.len();
        let n: usize = self.invalid_areas.len();
        proof {
            if n > 0 {
                lemma_area_starts(self.invalid_areas@, self.map@, n - 1);
            }
        }
        let mut later: Vec<usize> = Vec::new();
        let mut k: usize = 0;
        while k < n + 1
            invariant
                k <= n + 1 <= 0x40_0001,
                later@.len() == k,
                forall|j: int| 0 <= j < k ==> later@[j] == 0,
            decreases n + 1 - k,
        {
            later.push(0);
            k += 1;
        }
        let mut i: usize = n;
        while i > 0
            invariant
                i <= n,
                n == self.invalid_areas.len(),
                self.wf(),
                total == self.map.len(),
                later@.len() == n + 1,
                forall|j: int|
                    i <= j <= n ==> (#[trigger] later@[j]) == suffix_invalid(
                        self.invalid_areas@,
                        j,
                    ),
            decreases i,
        {
            i -= 1;
            proof {
                lemma_suffix_invalid(self.invalid_areas@, self.map@, i as int);
                lemma_suffix_invalid(self.invalid_areas@, self.map@, i + 1);
            }
            let sum: usize = later[i + 1] + (self.invalid_areas[i].end
                - self.invalid_areas[i].start);
            later.set(i, sum);
        }
        let mut scored: Vec<(Area, Score)> = Vec::new();
        let mut j: usize = 0;
        while j < n
            invariant
                j <= n,
                n == self.invalid_areas.len(),
                self.wf(),
                total == self.map.len(),
                total <= 0x40_0000,
                head_chunk == self.head.0 as int / MAX_PAYLOAD_LENGTH as int,
                later@.len() == n + 1,
                forall|j: int|
                    0 <= j <= n ==> (#[trigger] later@[j]) == suffix_invalid(
                        self.invalid_areas@,
                        j,
                    ),
                scored@ =~= scored_areas(
                    self.areas(),
                    self@.head,
                    self@.filled.len() as int,
                ).subrange(0, j as int),
                forall|k: int|
                    0 <= k < scored@.len() ==> (#[trigger] scored@[k]).1.num <= scored@[k].1.den
                        && 0 < scored@[k].1.den < score_bound(),
            decreases n - j,
        {
            let area: Area = self.invalid_areas[j];
            let s: Score = area.score(head_chunk, total, later[j + 1]);
            scored.push((area, s));
            j += 1;
        }
        scored
    }

    /// The holes to ask for now: the best two that reach the threshold, best first.
    pub fn requestable_areas(&self) -> (picked: Vec<Area>)
        requires
            self.wf(),
        ensures
            picked@ == top_areas(
                scored_areas(self.areas(), self@.head, self@.filled.len() as int),
            ),
    {
        let scored: Vec<(Area, Score)> = self.score_areas();
        let mut picked: Vec<Area> = Vec::new();
        match pick_best(&scored, None) {
            None => {},
            Some(a) => {
                picked.push(scored[a].0);
                match pick_best(&scored, Some(a)) {
                    None => {},
                    Some(b) => {
                        picked.push(scored[b].0);
                    },
                }
            },
        }
        assert(picked@ =~= top_areas(scored@));
        picked
    }

    /// Every hole, in order of position, whatever its score.
    pub fn all_invalid_areas(&self) -> (areas: Vec<Area>)
        ensures
            areas@ == self.areas(),
    {
        let mut areas: Vec<Area> = Vec::new();
        let mut i: usize = 0;
        while i < self.invalid_areas.len()
            invariant
                i <= self.invalid_areas.len(),
                areas@ =~= self.invalid_areas@.subrange(0, i as int),
            decreases self.invalid_areas.len() - i,
        {
            areas.push(self.invalid_areas[i]);
            i += 1;
        }
        areas
    }

    /// Writes `to_write` at `position`, if the buffer accepts it there, and moves
    /// the head. Gives the range of bytes written.
    pub fn write(&mut self, position: BytePosition, to_write: &[u8]) -> (r: Option<Range<usize>>)
        requires
            old(self).wf(),
        ensures
            final(self).wf(),
            r is Some <==> old(self)@.accepts(position.0 as int, to_write@.len() as int),
            r matches Some(range) ==> range.start == position.0 && range.end == position.0
                + to_write@.len() && final(self)@ == old(self)@.written(
                position.0 as int,
                to_write@,
            ),
            r is None ==> *final(self) == *old(self),
    {
        let i: usize = match self.position_to_index(position) {
            Some(i) => i,
            None => {
                return None;
            },
        };
        let at: usize = position.0 as usize;
        if self.map[i] || (to_write.len() != MAX_PAYLOAD_LENGTH && i != self.buffer.len()
            / MAX_PAYLOAD_LENGTH) || to_write.len() > self.buffer.len() - at {
            return None;
        }
        self.occupy(position);
        self.buffer.put(at, to_write);
        self.advance_head();
        Some(at..at + to_write.len())
    }
}

/// Index of the best hole that reaches the threshold, leaving out `skip`.
fn pick_best(scored: &Vec<(Area, Score)>, skip: Option<usize>) -> (r: Option<usize>)
    requires
        forall|k: int|
            0 <= k < scored@.len() ==> (#[trigger] scored@[k]).1.num <= scored@[k].1.den && 0
                < scored@[k].1.den < score_bound(),
    ensures
        r matches Some(i) ==> i < scored@.len(),
        ({
            let s = match skip {
                Some(s) => s as int,
                None => -1,
            };
            match r {
                Some(i) => best_area(scored@, scored@.len() as int, s) == Some(i as int),
                None => best_area(scored@, scored@.len() as int, s) is None,
            }
        }),
{
    let ghost s = match skip {
        Some(s) => s as int,
        None => -1int,
    };
    let mut best: Option<usize> = None;
    let mut i: usize = 0;
    while i < scored.len()
        invariant
            i <= scored.len(),
            forall|k: int|
                0 <= k < scored@.len() ==> (#[trigger] scored@[k]).1.num <= scored@[k].1.den && 0
                    < scored@[k].1.den < score_bound(),
            s == (match skip {
                Some(s) => s as int,
                None => -1int,
            }),
            best matches Some(b) ==> b < i,
            match best {
                Some(b) => best_area(scored@, i as int, s) == Some(b as int),
                None => best_area(scored@, i as int, s) is None,
            },
        decreases scored.len() - i,
    {
        let (_, score) = scored[i];
        let skipped: bool = match skip {
            Some(k) => k == i,
            None => false,
        };
        let better: bool = match best {
            Some(b) => {
                let (_, other) = scored[b];
                assert(score.num * other.den < 0x1_0000_0000_0000 * 0x1_0000_0000_0000)
                    by (nonlinear_arith)
                    requires
                        0 <= score.num < 0x1_0000_0000_0000,
                        0 <= other.den < 0x1_0000_0000_0000,
                ;
                assert(other.num * score.den < 0x1_0000_0000_0000 * 0x1_0000_0000_0000)
                    by (nonlinear_arith)
                    requires
                        0 <= other.num < 0x1_0000_0000_0000,
                        0 <= score.den < 0x1_0000_0000_0000,
                ;
                score.num * other.den > other.num * score.den
            },
            None => true,
        };
        if !skipped && score.num * 10 >= score.den * 3 && better {
            best = Some(i);
        }
        i += 1;
    }
    best
}

/// A piece of a stream with its position.
#[derive(Debug)]
pub struct Chunk {
    pub position: BytePosition,
    pub payload: Vec<u8>,
}

/// What a [`Chunk`] says.
#[verifier::ext_equal]
pub struct ChunkView {
    pub position: int,
    pub payload: Seq<u8>,
}

impl View for Chunk {
    type V = ChunkView;

    open spec fn view(&self) -> ChunkView {
        ChunkView { position: self.position.0 as int, payload: self.payload@ }
    }
}

/// What a list of chunks says.
pub open spec fn chunk_views(chunks: Seq<Chunk>) -> Seq<ChunkView> {
    Seq::new(chunks.len(), |i: int| chunks[i]@)
}

/// What a sending buffer holds: its bytes and the position of the next piece.
#[verifier::ext_equal]
pub struct ReadableView {
    pub data: Seq<u8>,
    pub head: int,
}

/// The piece of `data` that starts at `at`.
pub open spec fn piece_at(data: Seq<u8>, at: int) -> ChunkView {
    ChunkView {
        position: at,
        payload: data.subrange(
            at,
            if at + MAX_PAYLOAD_LENGTH <= data.len() {
                at + MAX_PAYLOAD_LENGTH
            } else {
                data.len() as int
            },
        ),
    }
}

/// Number of pieces that `n` bytes are sent in.
pub open spec fn pieces_in(n: int) -> int {
    if n <= 0 {
        0
    } else {
        (n + MAX_PAYLOAD_LENGTH - 1) / MAX_PAYLOAD_LENGTH as int
    }
}

impl ReadableView {
    /// The invariant of a sending buffer.
    pub open spec fn wf(self) -> bool {
        0 <= self.head <= self.data.len() <= u32::MAX
    }

    /// Whether nothing is left to send.
    pub open spec fn done(self) -> bool {
        self.data.len() <= self.head
    }

    /// How many pieces the next `n` are: fewer when the end comes first.
    pub open spec fn count(self, n: int) -> int {
        let left = pieces_in(self.data.len() - self.head);
        if n <= left {
            n
        } else {
            left
        }
    }

    /// The next `n` pieces.
    pub open spec fn pieces(self, n: int) -> Seq<ChunkView> {
        Seq::new(
            self.count(n) as nat,
            |i: int| piece_at(self.data, self.head + i * MAX_PAYLOAD_LENGTH),
        )
    }

    /// The buffer once the next `n` pieces have been taken.
    pub open spec fn taken(self, n: int) -> ReadableView {
        let head = self.head + self.count(n) * MAX_PAYLOAD_LENGTH;
        ReadableView {
            head: if head <= self.data.len() {
                head
            } else {
                self.data.len() as int
            },
            ..self
        }
    }

    /// The buffer moved to the start of the piece that `position` lies in.
    pub open spec fn sought(self, position: int) -> ReadableView {
        let exact = if position <= self.data.len() {
            position
        } else {
            self.data.len() as int
        };
        ReadableView { head: exact - exact % MAX_PAYLOAD_LENGTH as int, ..self }
    }
}

/// A buffer that a stream is sent from.
#[derive(Debug)]
pub struct ReadableBuffer {
    buffer: Vec<u8>,
    head: usize,
}

impl View for ReadableBuffer {
    type V = ReadableView;

    closed spec fn view(&self) -> ReadableView {
        ReadableView { data: self.buffer@, head: self.head as int }
    }
}

impl ReadableBuffer {
    /// A buffer of `bytes`, none of which has been sent.
    pub fn new(bytes: Vec<u8>) -> (b: Self)
        requires
            bytes@.len() <= u32::MAX,
        ensures
            b@ == (ReadableView { data: bytes@, head: 0 }),
            b@.wf(),
    {
        ReadableBuffer { buffer: bytes, head: 0 }
    }

    /// Takes the next piece.
    pub fn next(&mut self) -> (r: Option<Chunk>)
        requires
            old(self)@.wf(),
        ensures
            final(self)@.wf(),
            r is None <==> old(self)@.done(),
            r is None ==> final(self)@ == old(self)@,
            r matches Some(c) ==> c@ == piece_at(old(self)@.data, old(self)@.head) && final(self)@
                == old(self)@.taken(1),
    {
        if self.is_done() {
            None
        } else {
            let curr: usize = self.head;
            self.head = if self.buffer.len() - curr >= MAX_PAYLOAD_LENGTH {
                curr + MAX_PAYLOAD_LENGTH
            } else {
                self.buffer.len()
            };
            let payload: Vec<u8> = wire::copy_range(self.buffer.as_slice(), curr, self.head);
            Some(Chunk { position: BytePosition(curr as u32), payload })
        }
    }

    /// Takes the next `n` pieces, or what is left.
    pub fn take(&mut self, n: usize) -> (chunks: Vec<Chunk>)
        requires
            old(self)@.wf(),
        ensures
            final(self)@.wf(),
            final(self)@ == old(self)@.taken(n as int),
            chunk_views(chunks@) == old(self)@.pieces(n as int),
    {
        let mut chunks: Vec<Chunk> = Vec::new();
        let mut i: usize = 0;
        while i < n && !self.is_done()
            invariant
                i <= n,
                self@.wf(),
                old(self)@.wf(),
                i <= old(self)@.count(n as int),
                self@ == old(self)@.taken(i as int),
                chunk_views(chunks@) == old(self)@.pieces(i as int),
                chunks@.len() == i,
            decreases n - i,
        {
            match self.next() {
                None => {
                    return chunks;
                },
                Some(c) => {
                    let ghost before = chunks@;
                    chunks.push(c);
                    i += 1;
                    assert(chunk_views(chunks@) =~= chunk_views(before).push(c@));
                    assert(chunk_views(chunks@) =~= old(self)@.pieces(i as int));
                },
            }
        }
        chunks
    }

    /// Hands the bytes back.
    pub fn into_vec(self) -> (v: Vec<u8>)
        ensures
            v@ == self@.data,
    {
        self.buffer
    }

    /// Length of the buffer in bytes.
    pub fn len(&self) -> (n: usize)
        ensures
            n == self@.data.len(),
    {
        self.buffer.len()
    }

    /// Position of the next piece.
    pub fn current_position(&self) -> (n: usize)
        ensures
            n == self@.head,
    {
        self.head
    }

    /// Moves to the start of the piece that `pos` lies in. Gives the position
    /// before the move.
    pub fn seek(&mut self, pos: BytePosition) -> (prev: BytePosition)
        requires
            old(self)@.wf(),
        ensures
            final(self)@.wf(),
            final(self)@ == old(self)@.sought(pos.0 as int),
            prev.0 == old(self)@.head,
    {
        let exact: usize = if (pos.0 as usize) < self.buffer.len() {
            pos.0 as usize
        } else {
            self.buffer.len()
        };
        let prev: usize = self.head;
        self.head = exact - exact % MAX_PAYLOAD_LENGTH;
        BytePosition(prev as u32)
    }

    /// Whether everything has been taken.
    pub fn is_done(&self) -> (done: bool)
        ensures
            done == self@.done(),
    {
        self.buffer.len() <= self.head
    }

    /// The bytes of `range`, cut off at the end of the buffer; `None` if it starts
    /// past its end.
    pub fn read(&self, range: Range<usize>) -> (r: Option<&[u8]>)
        ensures
            ({
                let end = if range.end <= self@.data.len() {
                    range.end as int
                } else {
                    self@.data.len() as int
                };
                &&& r is Some <==> range.start <= end
                &&& r matches Some(bytes) ==> bytes@ == self@.data.subrange(
                    range.start as int,
                    end,
                )
            }),
    {
        let end: usize = if range.end <= self.buffer.len() {
            range.end
        } else {
            self.buffer.len()
        };
        if range.start <= end {
            Some(vstd::slice::slice_subrange(self.buffer.as_slice(), range.start, end))
        } else {
            None
        }
    }
}

/// Direction of a stream, as seen from the application.
pub trait StreamDirection: Sealed {

}

/// Keeps [`StreamDirection`] to the two directions there are.
pub trait Sealed {

}

/// A stream that is received.
#[derive(Debug)]
pub struct Input;

/// A stream that is sent.
#[derive(Debug)]
pub struct Output;

impl Sealed for Input {

}

impl Sealed for Output {

}

impl StreamDirection for Input {

}

impl StreamDirection for Output {

}

/// What became of a request that the application may turn down.
pub enum ApprovalStatus<A, S> {
    Approved(A),
    Rejected(S),
}

} // verus!
