//! Which batches of a session are on their way.
//!
//! This is built from the data packets of the session. What belongs to a batch that is
//! still on its way is not asked for again.
use vstd::prelude::*;

use crate::manager::fields::{BatchID, BytePosition};
use crate::manager::ranges::FECInfo;
use crate::manager::types::Timestamp;
use crate::packet_processor::fec::positions;
use crate::utils::table::Table;

verus! {

/// Milliseconds after which a packet is taken for lost.
pub const PACKET_DISCARD_TIME_MS: u64 = 500;

/// Bytes of a stream, from `start` up to `end`.
#[derive(Debug, Clone, Copy, PartialEq, Eq, Structural)]
pub struct Span {
    pub start: u64,
    pub end: u64,
}

impl Span {
    /// Whether the span holds byte `b`.
    pub open spec fn has(self, b: int) -> bool {
        self.start <= b < self.end
    }
}

/// Whether one of the spans holds byte `b`.
pub open spec fn spans_have(spans: Seq<Span>, b: int) -> bool {
    exists|i: int| 0 <= i < spans.len() && (#[trigger] spans[i]).has(b)
}

/// A batch that is on its way.
#[derive(Debug, Clone, Copy)]
pub struct FecBatchWindow {
    pub batch_size: u8,
    pub recovery_count: u8,
    pub created_at: Timestamp,
    pub base_byte_pos: Option<BytePosition>,
    pub is_contiguous: bool,
}

impl FecBatchWindow {
    /// A batch of which nothing came.
    pub open spec fn empty(batch_size: u8, recovery_count: u8, now: Timestamp) -> FecBatchWindow {
        FecBatchWindow {
            batch_size,
            recovery_count,
            created_at: now,
            base_byte_pos: None,
            is_contiguous: true,
        }
    }

    /// The batch once the packet at place `index` came, which starts at `start`.
    pub open spec fn with_data(self, index: u8, start: BytePosition) -> FecBatchWindow {
        let derived = positions::derived_base(index, start);
        FecBatchWindow {
            base_byte_pos: match self.base_byte_pos {
                None => Some(derived),
                Some(b) => Some(b),
            },
            is_contiguous: self.is_contiguous && (self.base_byte_pos matches Some(b) ==> b
                == derived),
            ..self
        }
    }

    /// The bytes of the batch, if its packets follow each other and one of them came.
    pub open spec fn span(self) -> Option<Span> {
        match self.base_byte_pos {
            Some(base) if self.is_contiguous => Some(
                Span {
                    start: base.0 as u64,
                    end: (base.0 + positions::offset(self.batch_size as int)) as u64,
                },
            ),
            _ => None,
        }
    }

    /// Whether the batch is known to hold byte `b`.
    pub open spec fn covers(self, b: int) -> bool {
        self.span() matches Some(s) && s.has(b)
    }

    /// A batch of which nothing came.
    pub fn new(batch_size: u8, recovery_count: u8, now: Timestamp) -> (w: Self)
        ensures
            w == FecBatchWindow::empty(batch_size, recovery_count, now),
    {
        FecBatchWindow {
            batch_size,
            recovery_count,
            created_at: now,
            base_byte_pos: None,
            is_contiguous: true,
        }
    }

    /// Takes note of the data packet at place `index`.
    pub fn add_data(&mut self, index: u8, byte_range_start: BytePosition)
        ensures
            *final(self) == old(self).with_data(index, byte_range_start),
    {
        let before: u32 = index as u32 * 1384;
        let derived: BytePosition = BytePosition(byte_range_start.0.saturating_sub(before));
        match self.base_byte_pos {
            None => {
                self.base_byte_pos = Some(derived);
            },
            Some(existing) => {
                if existing.0 != derived.0 {
                    self.is_contiguous = false;
                }
            },
        }
    }

    /// The bytes of the batch, if its packets follow each other and one of them came.
    pub fn contiguous_byte_range(&self) -> (r: Option<Span>)
        ensures
            r == self.span(),
    {
        if !self.is_contiguous {
            return None;
        }
        match self.base_byte_pos {
            None => None,
            Some(base) => Some(
                Span { start: base.0 as u64, end: base.0 as u64 + self.batch_size as u64 * 1384 },
            ),
        }
    }
}

/// A data packet of a batch: its place and where it starts.
pub struct Placed {
    pub index: u8,
    pub start: BytePosition,
}

/// The batch once data packets came, in turn.
pub open spec fn with_all(window: FecBatchWindow, packets: Seq<Placed>) -> FecBatchWindow
    decreases packets.len(),
{
    if packets.len() == 0 {
        window
    } else {
        with_all(window, packets.drop_last()).with_data(
            packets.last().index,
            packets.last().start,
        )
    }
}

/// Whether all data packets give the batch one and the same beginning.
pub open spec fn one_base(packets: Seq<Placed>) -> bool {
    forall|i: int|
        0 <= i < packets.len() ==> positions::derived_base(
            (#[trigger] packets[i]).index,
            packets[i].start,
        ) == positions::derived_base(packets[0].index, packets[0].start)
}

/// A batch of which data packets came has the bytes from their common beginning on, as many
/// as its packets hold, if they have one. Otherwise, or if none came, it is not known which
/// bytes it has.
pub proof fn batch_has_one_range(
    batch_size: u8,
    recovery_count: u8,
    now: Timestamp,
    packets: Seq<Placed>,
)
    ensures
        with_all(FecBatchWindow::empty(batch_size, recovery_count, now), packets).span() == (
        if packets.len() > 0 && one_base(packets) {
            let base = positions::derived_base(packets[0].index, packets[0].start);
            Some(
                Span {
                    start: base.0 as u64,
                    end: (base.0 + batch_size * 1384) as u64,
                },
            )
        } else {
            None
        }),
{
    lemma_with_all(FecBatchWindow::empty(batch_size, recovery_count, now), packets);
}

proof fn lemma_with_all(window: FecBatchWindow, packets: Seq<Placed>)
    requires
        window.base_byte_pos is None,
        window.is_contiguous,
    ensures
        with_all(window, packets) == (FecBatchWindow {
            base_byte_pos: if packets.len() == 0 {
                None
            } else {
                Some(positions::derived_base(packets[0].index, packets[0].start))
            },
            is_contiguous: one_base(packets),
            ..window
        }),
    decreases packets.len(),
{
    if packets.len() > 0 {
        let rest = packets.drop_last();
        lemma_with_all(window, rest);
        let n = packets.len() - 1;
        let base = positions::derived_base(packets[0].index, packets[0].start);
        let last = positions::derived_base(packets[n].index, packets[n].start);
        assert(one_base(packets) ==> one_base(rest)) by {
            if one_base(packets) {
                assert forall|i: int| 0 <= i < rest.len() implies positions::derived_base(
                    (#[trigger] rest[i]).index,
                    rest[i].start,
                ) == positions::derived_base(rest[0].index, rest[0].start) by {
                    assert(packets[i] == rest[i]);
                }
            }
        }
        assert(one_base(rest) && last == base ==> one_base(packets)) by {
            if one_base(rest) && last == base {
                assert forall|i: int| 0 <= i < packets.len() implies positions::derived_base(
                    (#[trigger] packets[i]).index,
                    packets[i].start,
                ) == base by {
                    if i < n {
                        assert(rest[i] == packets[i]);
                    }
                }
            }
        }
    }
}

/// A batch whose data packets do not have one beginning has no range, whatever comes later.
pub proof fn batch_stays_without_range(
    window: FecBatchWindow,
    packets: Seq<Placed>,
)
    requires
        !window.is_contiguous,
    ensures
        with_all(window, packets).span() is None,
        !with_all(window, packets).is_contiguous,
    decreases packets.len(),
{
    if packets.len() > 0 {
        batch_stays_without_range(window, packets.drop_last());
    }
}

/// Whether a batch is known to hold byte `b`.
pub open spec fn batches_cover(batches: Map<u64, FecBatchWindow>, b: int) -> bool {
    exists|k: u64| #[trigger] batches.dom().contains(k) && batches[k].covers(b)
}

/// The batches that are still expected to arrive.
pub open spec fn live(batches: Map<u64, FecBatchWindow>, now: Timestamp) -> Map<
    u64,
    FecBatchWindow,
> {
    batches.restrict(
        batches.dom().filter(
            |k: u64| !batches[k].created_at.older_than(PACKET_DISCARD_TIME_MS, now),
        ),
    )
}

/// The batches of a session that are on their way.
#[derive(Debug)]
pub struct SessionFecState {
    table: Table<u64, FecBatchWindow>,
}

impl View for SessionFecState {
    type V = Map<u64, FecBatchWindow>;

    closed spec fn view(&self) -> Map<u64, FecBatchWindow> {
        self.table@
    }
}

/// The batches once one more data packet came.
pub open spec fn with_packet(
    batches: Map<u64, FecBatchWindow>,
    batch_id: BatchID,
    fec_info: FECInfo,
    start: BytePosition,
    now: Timestamp,
) -> Map<u64, FecBatchWindow> {
    let key = batch_id.0 as u64;
    let before = if batches.dom().contains(key) {
        batches[key]
    } else {
        FecBatchWindow::empty(fec_info.batch_size, fec_info.recovery_count, now)
    };
    batches.insert(key, before.with_data(fec_info.batch_pos, start))
}

impl SessionFecState {
    /// No batches.
    pub fn new() -> (s: Self)
        ensures
            s@ == Map::<u64, FecBatchWindow>::empty(),
    {
        SessionFecState { table: Table::new() }
    }

    /// Takes note of a data packet.
    pub fn add_data(
        &mut self,
        batch_id: BatchID,
        fec_info: FECInfo,
        byte_range_start: BytePosition,
        now: Timestamp,
    )
        ensures
            final(self)@ == with_packet(old(self)@, batch_id, fec_info, byte_range_start, now),
    {
        let key: u64 = batch_id.0 as u64;
        let mut window: FecBatchWindow = match self.table.get(key) {
            Some(w) => *w,
            None => FecBatchWindow::new(fec_info.batch_size, fec_info.recovery_count, now),
        };
        window.add_data(fec_info.batch_pos, byte_range_start);
        self.table.insert(key, window);
    }

    /// Forgets a batch, which is settled.
    pub fn evict(&mut self, batch_id: BatchID)
        ensures
            final(self)@ == old(self)@.remove(batch_id.0 as u64),
    {
        let _ = self.table.remove(batch_id.0 as u64);
    }

    /// When the first packet of a batch came.
    pub fn batch_started_at(&self, batch_id: BatchID) -> (r: Option<Timestamp>)
        ensures
            r == (if self@.dom().contains(batch_id.0 as u64) {
                Some(self@[batch_id.0 as u64].created_at)
            } else {
                None
            }),
    {
        match self.table.get(batch_id.0 as u64) {
            Some(w) => Some(w.created_at),
            None => None,
        }
    }

    /// The bytes that are still expected to arrive in their batches. Batches that are too
    /// old are forgotten.
    pub fn active_byte_ranges(&mut self, now: Timestamp) -> (spans: Vec<Span>)
        ensures
            final(self)@ == live(old(self)@, now),
            forall|b: int|
                #[trigger] spans_have(spans@, b) <==> batches_cover(live(old(self)@, now), b),
    {
        let ghost all = self@;
        let keys: Vec<u64> = self.table.keys();
        let mut spans: Vec<Span> = Vec::new();
        let mut i: usize = 0;
        assert forall|k: int| 0 <= k < keys@.len() implies all.dom().contains(#[trigger] keys@[k]) by {
            assert(keys@.contains(keys@[k]));
        }
        while i < keys.len()
            invariant
                i <= keys@.len(),
                keys@.no_duplicates(),
                forall|k: int| 0 <= k < keys@.len() ==> all.dom().contains(#[trigger] keys@[k]),
                forall|k: u64|
                    #[trigger] self@.dom().contains(k) <==> all.dom().contains(k) && !(
                    all[k].created_at.older_than(PACKET_DISCARD_TIME_MS, now) && exists|j: int|
                        0 <= j < i && #[trigger] keys@[j] == k),
                forall|k: u64| #[trigger] self@.dom().contains(k) ==> self@[k] == all[k],
                forall|n: int|
                    0 <= n < spans@.len() ==> exists|j: int|
                        0 <= j < i && (#[trigger] spanning(all, keys@[j], now)) == Some(
                            #[trigger] spans@[n],
                        ),
                forall|j: int|
                    0 <= j < i && (#[trigger] spanning(all, keys@[j], now)) is Some
                        ==> exists|n: int|
                        0 <= n < spans@.len() && #[trigger] spans@[n] == spanning(
                            all,
                            keys@[j],
                            now,
                        )->0,
            decreases keys.len() - i,
        {
            let key: u64 = keys[i];
            let ghost before = self@;
            let ghost spans_before = spans@;
            assert(forall|j: int| 0 <= j < i ==> #[trigger] keys@[j] != keys@[i as int]);
            assert(before.dom().contains(key));
            let mut old_batch: bool = false;
            match self.table.get(key) {
                Some(window) => {
                    if window.created_at.been_longer_than(PACKET_DISCARD_TIME_MS, now) {
                        old_batch = true;
                    } else {
                        match window.contiguous_byte_range() {
                            Some(span) => {
                                spans.push(span);
                            },
                            None => {},
                        }
                    }
                },
                None => {},
            }
            if old_batch {
                let _ = self.table.remove(key);
            }
            i += 1;
            assert forall|k: u64|
                #[trigger] self@.dom().contains(k) <==> all.dom().contains(k) && !(
                all[k].created_at.older_than(PACKET_DISCARD_TIME_MS, now) && exists|j: int|
                    0 <= j < i && #[trigger] keys@[j] == k) by {
                assert(before.dom().contains(k) <==> all.dom().contains(k) && !(
                all[k].created_at.older_than(PACKET_DISCARD_TIME_MS, now) && exists|j: int|
                    0 <= j < i - 1 && #[trigger] keys@[j] == k));
                if k == key {
                    assert(keys@[i - 1] == k);
                } else if exists|j: int| 0 <= j < i && #[trigger] keys@[j] == k {
                    let j = choose|j: int| 0 <= j < i && #[trigger] keys@[j] == k;
                    assert(j < i - 1);
                }
            }
            assert(spanning(all, keys@[i - 1], now) == (if old_batch {
                None
            } else {
                all[key].span()
            }));
            assert forall|n: int| 0 <= n < spans@.len() implies exists|j: int|
                0 <= j < i && (#[trigger] spanning(all, keys@[j], now)) == Some(
                    #[trigger] spans@[n],
                ) by {
                if n < spans_before.len() {
                    let j = choose|j: int|
                        0 <= j < i - 1 && (#[trigger] spanning(all, keys@[j], now)) == Some(
                            spans_before[n],
                        );
                    assert(spanning(all, keys@[j], now) == Some(spans@[n]));
                } else {
                    assert(spanning(all, keys@[i - 1], now) == Some(spans@[n]));
                }
            }
            assert forall|j: int|
                0 <= j < i && (#[trigger] spanning(all, keys@[j], now)) is Some implies exists|
                n: int,
            |
                0 <= n < spans@.len() && #[trigger] spans@[n] == spanning(all, keys@[j], now)->0 by {
                if j < i - 1 {
                    let n = choose|n: int|
                        0 <= n < spans_before.len() && #[trigger] spans_before[n] == spanning(
                            all,
                            keys@[j],
                            now,
                        )->0;
                    assert(spans@[n] == spanning(all, keys@[j], now)->0);
                } else {
                    assert(spans@[spans@.len() - 1] == spanning(all, keys@[j], now)->0);
                }
            }
        }
        let ghost kept = live(all, now);
        assert forall|k: u64| all.dom().contains(k) implies exists|j: int|
            0 <= j < keys@.len() && #[trigger] keys@[j] == k by {
            assert(keys@.contains(k));
        }
        assert(self@ =~= kept);
        assert forall|b: int| #[trigger] spans_have(spans@, b) <==> batches_cover(kept, b) by {
            if spans_have(spans@, b) {
                let n = choose|n: int| 0 <= n < spans@.len() && (#[trigger] spans@[n]).has(b);
                let j = choose|j: int|
                    0 <= j < keys@.len() && (#[trigger] spanning(all, keys@[j], now)) == Some(
                        spans@[n],
                    );
                assert(kept.dom().contains(keys@[j]));
                assert(kept[keys@[j]].covers(b));
            }
            if batches_cover(kept, b) {
                let k = choose|k: u64| #[trigger] kept.dom().contains(k) && kept[k].covers(b);
                let j = choose|j: int| 0 <= j < keys@.len() && #[trigger] keys@[j] == k;
                assert(spanning(all, keys@[j], now) == all[k].span());
                let n = choose|n: int|
                    0 <= n < spans@.len() && #[trigger] spans@[n] == spanning(
                        all,
                        keys@[j],
                        now,
                    )->0;
                assert(spans@[n].has(b));
            }
        }
        spans
    }
}

spec fn spanning(batches: Map<u64, FecBatchWindow>, key: u64, now: Timestamp) -> Option<Span> {
    if batches[key].created_at.older_than(PACKET_DISCARD_TIME_MS, now) {
        None
    } else {
        batches[key].span()
    }
}

} // verus!
