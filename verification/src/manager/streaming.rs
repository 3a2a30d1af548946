//! The two ends of a stream: what is sent, and what has come.
use vstd::prelude::*;

use crate::api::buffer_laws;
use crate::api::types;
use crate::api::types::{Area, ReadableBuffer, ReadableView, WriteableBuffer, WriteableView};
use crate::manager::fields::{BatchID, BytePosition, SessionId};
use crate::manager::ranges;
use crate::manager::ranges::{ByteRange, FecConfig};
use crate::manager::session_fec;
use crate::manager::session_fec::{FecBatchWindow, Span, PACKET_DISCARD_TIME_MS};
use crate::manager::types::Timestamp;
use crate::utils::data_collection::Observation;
use crate::utils::messages;
use crate::utils::messages::{Action, ActionView};
use crate::utils::table::Table;

verus! {

/// A stream that is sent.
#[derive(Debug)]
pub struct StreamingTo {
    pub buffer: ReadableBuffer,
    /// The last batch that was sent; none yet if zero.
    pub current_batch: u16,
    /// How the stream is coded, as the receiver chose it.
    pub fec_config: FecConfig,
}

/// A stream that is sent, for contracts.
#[verifier::ext_equal]
pub struct ToView {
    pub buffer: ReadableView,
    pub current_batch: u16,
    pub fec_config: FecConfig,
}

impl View for StreamingTo {
    type V = ToView;

    open spec fn view(&self) -> ToView {
        ToView {
            buffer: self.buffer@,
            current_batch: self.current_batch,
            fec_config: self.fec_config,
        }
    }
}

/// The batch after `current`. After the last number the count begins anew.
pub open spec fn batch_after(current: u16) -> u16 {
    if current == u16::MAX {
        0
    } else {
        (current + 1) as u16
    }
}

impl StreamingTo {
    /// Begins the next batch. The first one is batch 1.
    pub fn next_batch_id(&mut self) -> (id: BatchID)
        ensures
            id.0 == batch_after(old(self)@.current_batch),
            final(self)@ == (ToView { current_batch: id.0, ..old(self)@ }),
    {
        self.current_batch = self.current_batch.wrapping_add(1);
        BatchID(self.current_batch)
    }
}

/// A stream that is received.
#[derive(Debug)]
pub struct StreamingFrom {
    pub buffer: WriteableBuffer,
    /// Chunks that were asked for again, and when.
    pub pending: Table<u64, Timestamp>,
    pub session_id: SessionId,
    /// How the stream is coded, as this peer chose it.
    pub fec_config: FecConfig,
    /// Number of the latest packet that came, by the order in which packets are sent.
    pub max_seq: Option<u32>,
}

/// A stream that is received, for contracts.
#[verifier::ext_equal]
pub struct FromView {
    pub buffer: WriteableView,
    pub pending: Map<u64, Timestamp>,
    pub session_id: SessionId,
    pub fec_config: FecConfig,
    pub max_seq: Option<u32>,
}

impl View for StreamingFrom {
    type V = FromView;

    open spec fn view(&self) -> FromView {
        FromView {
            buffer: self.buffer@,
            pending: self.pending@,
            session_id: self.session_id,
            fec_config: self.fec_config,
            max_seq: self.max_seq,
        }
    }
}

/// The number of a packet, by the order in which packets are sent.
pub open spec fn seq_number(batch_id: BatchID, batch_pos: u8) -> u32 {
    (batch_id.0 * 256 + batch_pos) as u32
}

/// Requests that are not too old.
pub open spec fn fresh_pending(pending: Map<u64, Timestamp>, now: Timestamp) -> Map<
    u64,
    Timestamp,
> {
    pending.restrict(
        pending.dom().filter(|k: u64| !pending[k].older_than(PACKET_DISCARD_TIME_MS, now)),
    )
}

/// The chunk that a position lies in.
pub open spec fn chunk_at(pos: BytePosition) -> u64 {
    (pos.0 / 1384) as u64
}

/// Positions that are gone through to be asked for: which are asked for, how many are
/// missing, and the lengths of the runs of chunks that are asked for.
#[verifier::ext_equal]
pub struct Reserve {
    pub pending: Map<u64, Timestamp>,
    pub accepted: Seq<BytePosition>,
    pub holes: u32,
    pub bursts: Seq<u32>,
    pub burst: u32,
    pub last: Option<u64>,
}

/// One more, if there is room for it.
pub open spec fn one_more(n: u32) -> u32 {
    if n == u32::MAX {
        n
    } else {
        (n + 1) as u32
    }
}

impl Reserve {
    /// Nothing has been gone through.
    pub open spec fn begin(pending: Map<u64, Timestamp>) -> Reserve {
        Reserve { pending, accepted: seq![], holes: 0, bursts: seq![], burst: 0, last: None }
    }

    /// One more position. It is asked for if its chunk is missing and was not asked for
    /// already.
    pub open spec fn step(self, buffer: WriteableView, pos: BytePosition, now: Timestamp) -> Reserve {
        let idx = chunk_at(pos);
        let missing = buffer.index_of(pos.0 as int) matches Some(i) && !buffer.filled[i];
        if !missing {
            self
        } else if self.pending.dom().contains(idx) {
            Reserve { holes: one_more(self.holes), last: Some(idx), ..self }
        } else {
            let goes_on = self.last matches Some(prev) && prev + 1 == idx;
            Reserve {
                pending: self.pending.insert(idx, now),
                accepted: self.accepted.push(pos),
                holes: one_more(self.holes),
                bursts: if !goes_on && self.burst > 0 {
                    self.bursts.push(self.burst)
                } else {
                    self.bursts
                },
                burst: if goes_on {
                    one_more(self.burst)
                } else {
                    1
                },
                last: Some(idx),
            }
        }
    }

    /// The positions in turn.
    pub open spec fn steps(
        self,
        buffer: WriteableView,
        positions: Seq<BytePosition>,
        now: Timestamp,
    ) -> Reserve
        decreases positions.len(),
    {
        if positions.len() == 0 {
            self
        } else {
            self.steps(buffer, positions.drop_last(), now).step(buffer, positions.last(), now)
        }
    }

    /// What is observed: the runs, the missing chunks and the requests.
    pub open spec fn observed(self, session: SessionId) -> Seq<ActionView> {
        let runs = if self.burst > 0 {
            self.bursts.push(self.burst)
        } else {
            self.bursts
        };
        burst_views(session, runs) + (if self.holes > 0 {
            seq![
                ActionView::Observe(Observation::HolesObserved { session, count: self.holes }),
            ]
        } else {
            seq![]
        }) + (if 0 < self.accepted.len() <= u32::MAX {
            seq![
                ActionView::Observe(
                    Observation::RetransmitIssued { session, count: self.accepted.len() as u32 },
                ),
            ]
        } else {
            seq![]
        })
    }
}

/// The observations of the given runs.
pub open spec fn burst_views(session: SessionId, runs: Seq<u32>) -> Seq<ActionView> {
    Seq::new(
        runs.len(),
        |i: int| ActionView::Observe(Observation::LossBurst { session, length: runs[i] }),
    )
}

/// The positions of the chunks of an area.
pub open spec fn positions_of(area: Area) -> Seq<BytePosition> {
    Seq::new(
        (area.end - area.start) as nat,
        |i: int| BytePosition(((area.start + i) * 1384) as u32),
    )
}

/// The positions of the chunks of areas.
pub open spec fn all_positions(areas: Seq<Area>) -> Seq<BytePosition>
    decreases areas.len(),
{
    if areas.len() == 0 {
        seq![]
    } else {
        all_positions(areas.drop_last()) + positions_of(areas.last())
    }
}

/// The positions that no batch on its way holds.
pub open spec fn unexpected(
    positions: Seq<BytePosition>,
    batches: Map<u64, FecBatchWindow>,
) -> Seq<BytePosition>
    decreases positions.len(),
{
    if positions.len() == 0 {
        seq![]
    } else {
        let rest = unexpected(positions.drop_last(), batches);
        if session_fec::batches_cover(batches, positions.last().0 as int) {
            rest
        } else {
            rest.push(positions.last())
        }
    }
}

/// The positions that none of the spans holds.
pub open spec fn outside(positions: Seq<BytePosition>, spans: Seq<Span>) -> Seq<BytePosition>
    decreases positions.len(),
{
    if positions.len() == 0 {
        seq![]
    } else {
        let rest = outside(positions.drop_last(), spans);
        if session_fec::spans_have(spans, positions.last().0 as int) {
            rest
        } else {
            rest.push(positions.last())
        }
    }
}

/// Spans that hold what the batches on their way hold leave the same positions.
pub proof fn lemma_outside(
    positions: Seq<BytePosition>,
    spans: Seq<Span>,
    batches: Map<u64, FecBatchWindow>,
)
    requires
        forall|b: int|
            #[trigger] session_fec::spans_have(spans, b) <==> session_fec::batches_cover(
                batches,
                b,
            ),
    ensures
        outside(positions, spans) == unexpected(positions, batches),
    decreases positions.len(),
{
    if positions.len() > 0 {
        lemma_outside(positions.drop_last(), spans, batches);
    }
}

impl FromView {
    /// The requests for the given positions.
    pub open spec fn reserve(self, positions: Seq<BytePosition>, now: Timestamp) -> Reserve {
        Reserve::begin(fresh_pending(self.pending, now)).steps(self.buffer, positions, now)
    }

    /// The stream once the given positions were gone through.
    pub open spec fn after_reserve(self, positions: Seq<BytePosition>, now: Timestamp) -> FromView {
        FromView { pending: self.reserve(positions, now).pending, ..self }
    }

    /// The holes that are most worth asking for.
    pub open spec fn best_holes(self) -> Seq<Area> {
        types::top_areas(
            types::scored_areas(
                types::holes_of(self.buffer.filled),
                self.buffer.head,
                self.buffer.filled.len() as int,
            ),
        )
    }

    /// All holes.
    pub open spec fn all_holes(self) -> Seq<Area> {
        types::holes_of(self.buffer.filled)
    }

    /// The stream once the packet with the given number came.
    pub open spec fn arrived(self, seq: u32) -> FromView {
        FromView {
            max_seq: Some(
                match self.max_seq {
                    Some(m) if m > seq => m,
                    _ => seq,
                },
            ),
            ..self
        }
    }

    /// What is observed when the packet with the given number came: how far behind the
    /// latest one it is, if it is behind.
    pub open spec fn arrival_observed(self, seq: u32) -> Seq<ActionView> {
        match self.max_seq {
            Some(m) if m > seq => seq![
                ActionView::Observe(
                    Observation::ReorderDistance {
                        session: self.session_id,
                        distance: (m - seq) as u32,
                    },
                ),
            ],
            _ => seq![],
        }
    }

    /// The stream once the chunk at `position` came.
    pub open spec fn cleared(self, position: BytePosition) -> FromView {
        FromView { pending: self.pending.remove(chunk_at(position)), ..self }
    }

    /// What is observed when the chunk at `position` came: how long after the request for
    /// it, if there was one.
    pub open spec fn clear_observed(self, position: BytePosition, now: Timestamp) -> Seq<
        ActionView,
    > {
        if self.pending.dom().contains(chunk_at(position)) {
            seq![
                ActionView::Observe(
                    Observation::RetransmitRtt {
                        session: self.session_id,
                        rtt_ms: now.since(self.pending[chunk_at(position)]),
                    },
                ),
            ]
        } else {
            seq![]
        }
    }
}

/// Forgets requests that are too old.
fn sweep(pending: &mut Table<u64, Timestamp>, now: Timestamp)
    ensures
        final(pending)@ == fresh_pending(old(pending)@, now),
{
    let ghost all = pending@;
    let keys: Vec<u64> = pending.keys();
    let mut i: usize = 0;
    assert forall|k: int| 0 <= k < keys@.len() implies all.dom().contains(#[trigger] keys@[k]) by {
        assert(keys@.contains(keys@[k]));
    }
    while i < keys.len()
        invariant
            i <= keys@.len(),
            keys@.no_duplicates(),
            forall|k: int| 0 <= k < keys@.len() ==> all.dom().contains(#[trigger] keys@[k]),
            forall|k: u64|
                #[trigger] pending@.dom().contains(k) <==> all.dom().contains(k) && !(
                all[k].older_than(PACKET_DISCARD_TIME_MS, now) && exists|j: int|
                    0 <= j < i && #[trigger] keys@[j] == k),
            forall|k: u64| #[trigger] pending@.dom().contains(k) ==> pending@[k] == all[k],
        decreases keys.len() - i,
    {
        let key: u64 = keys[i];
        let ghost before = pending@;
        assert(forall|j: int| 0 <= j < i ==> #[trigger] keys@[j] != keys@[i as int]);
        assert(before.dom().contains(key));
        let too_old: bool = match pending.get(key) {
            Some(t) => t.been_longer_than(PACKET_DISCARD_TIME_MS, now),
            None => false,
        };
        if too_old {
            let _ = pending.remove(key);
        }
        i += 1;
        assert forall|k: u64|
            #[trigger] pending@.dom().contains(k) <==> all.dom().contains(k) && !(
            all[k].older_than(PACKET_DISCARD_TIME_MS, now) && exists|j: int|
                0 <= j < i && #[trigger] keys@[j] == k) by {
            assert(before.dom().contains(k) <==> all.dom().contains(k) && !(all[k].older_than(
                PACKET_DISCARD_TIME_MS,
                now,
            ) && exists|j: int| 0 <= j < i - 1 && #[trigger] keys@[j] == k));
            if k == key {
                assert(keys@[i - 1] == k);
            } else if exists|j: int| 0 <= j < i && #[trigger] keys@[j] == k {
                let j = choose|j: int| 0 <= j < i && #[trigger] keys@[j] == k;
                assert(j < i - 1);
            }
        }
    }
    assert forall|k: u64| all.dom().contains(k) implies exists|j: int|
        0 <= j < keys@.len() && #[trigger] keys@[j] == k by {
        assert(keys@.contains(k));
    }
    assert(pending@ =~= fresh_pending(all, now));
}

fn in_spans(spans: &Vec<Span>, b: u32) -> (r: bool)
    ensures
        r == session_fec::spans_have(spans@, b as int),
{
    let mut i: usize = 0;
    while i < spans.len()
        invariant
            i <= spans@.len(),
            forall|k: int| 0 <= k < i ==> !(#[trigger] spans@[k]).has(b as int),
        decreases spans.len() - i,
    {
        if spans[i].start <= b as u64 && (b as u64) < spans[i].end {
            assert(spans@[i as int].has(b as int));
            return true;
        }
        i += 1;
    }
    false
}

proof fn lemma_steps_push(
    r: Reserve,
    buffer: WriteableView,
    positions: Seq<BytePosition>,
    n: int,
    now: Timestamp,
)
    requires
        0 <= n < positions.len(),
    ensures
        r.steps(buffer, positions.take(n + 1), now) == r.steps(
            buffer,
            positions.take(n),
            now,
        ).step(buffer, positions[n], now),
{
    assert(positions.take(n + 1).drop_last() =~= positions.take(n));
}

impl StreamingFrom {
    /// The invariant of the buffer.
    pub open spec fn wf(self) -> bool {
        self.buffer.wf()
    }

    /// A stream of which nothing came.
    pub fn new(buffer: WriteableBuffer, session_id: SessionId, fec_config: FecConfig) -> (s: Self)
        requires
            buffer.wf(),
        ensures
            s.wf(),
            s@ == (FromView {
                buffer: buffer@,
                pending: Map::empty(),
                session_id,
                fec_config,
                max_seq: None,
            }),
    {
        StreamingFrom { buffer, pending: Table::new(), session_id, fec_config, max_seq: None }
    }

    /// Goes through `positions` and gives those that should be asked for: their chunks are
    /// missing and were not asked for already. They count as asked for from now on.
    /// Requests that are too old count for nothing.
    pub fn reserve_for_request(
        &mut self,
        positions: Vec<BytePosition>,
        now: Timestamp,
        actions: &mut Vec<Action>,
    ) -> (accepted: Vec<BytePosition>)
        requires
            old(self).wf(),
        ensures
            final(self).wf(),
            final(self).buffer == old(self).buffer,
            final(self)@ == old(self)@.after_reserve(positions@, now),
            accepted@ == old(self)@.reserve(positions@, now).accepted,
            messages::action_views(final(actions)@) == messages::action_views(old(actions)@)
                + old(self)@.reserve(positions@, now).observed(old(self)@.session_id),
    {
        let ghost views0 = messages::action_views(actions@);
        let ghost session0 = self.session_id;
        sweep(&mut self.pending, now);
        let session: SessionId = self.session_id;
        let ghost begin = Reserve::begin(self.pending@);
        let ghost buffer = self.buffer@;
        let mut accepted: Vec<BytePosition> = Vec::new();
        let mut new_holes: u32 = 0;
        let mut current_burst: u32 = 0;
        let mut last_idx: Option<u64> = None;
        let ghost mut r = begin;
        let mut i: usize = 0;
        assert(views0 =~= views0 + burst_views(session, r.bursts));
        assert(positions@.take(0) =~= seq![]);
        while i < positions.len()
            invariant
                i <= positions@.len(),
                self.wf(),
                self.buffer == old(self).buffer,
                self.session_id == session,
                self.fec_config == old(self).fec_config,
                self.max_seq == old(self).max_seq,
                buffer == self.buffer@,
                r == begin.steps(buffer, positions@.take(i as int), now),
                self.pending@ == r.pending,
                accepted@ == r.accepted,
                new_holes == r.holes,
                current_burst == r.burst,
                last_idx == r.last,
                messages::action_views(actions@) == views0 + burst_views(session, r.bursts),
            decreases positions.len() - i,
        {
            let pos: BytePosition = positions[i];
            let idx: u64 = (pos.0 / 1384) as u64;
            proof {
                lemma_steps_push(begin, buffer, positions@, i as int, now);
            }
            let ghost before = r;
            proof {
                r = r.step(buffer, pos, now);
            }
            i += 1;
            let missing: bool = match self.buffer.position_occupied(pos) {
                Some(occupied) => !occupied,
                None => false,
            };
            if !missing {
                continue;
            }
            new_holes = new_holes.saturating_add(1);
            if self.pending.contains(idx) {
                last_idx = Some(idx);
                continue;
            }
            self.pending.insert(idx, now);
            let goes_on: bool = match last_idx {
                Some(prev) => prev < idx && prev + 1 == idx,
                None => false,
            };
            if goes_on {
                current_burst = current_burst.saturating_add(1);
            } else {
                if current_burst > 0 {
                    messages::push_action(
                        actions,
                        Action::Observe(Observation::LossBurst { session, length: current_burst }),
                    );
                    assert(messages::action_views(actions@) =~= views0 + burst_views(
                        session,
                        r.bursts,
                    ));
                }
                current_burst = 1;
            }
            last_idx = Some(idx);
            accepted.push(pos);
        }
        assert(positions@.take(i as int) =~= positions@);
        assert(r == old(self)@.reserve(positions@, now));
        let ghost runs = if r.burst > 0 {
            r.bursts.push(r.burst)
        } else {
            r.bursts
        };
        if current_burst > 0 {
            messages::push_action(
                actions,
                Action::Observe(Observation::LossBurst { session, length: current_burst }),
            );
        }
        assert(messages::action_views(actions@) =~= views0 + burst_views(session, runs));
        if new_holes > 0 {
            messages::push_action(
                actions,
                Action::Observe(Observation::HolesObserved { session, count: new_holes }),
            );
        }
        let issued: usize = accepted.len();
        if issued > 0 && issued as u64 <= u32::MAX as u64 {
            messages::push_action(
                actions,
                Action::Observe(Observation::RetransmitIssued { session, count: issued as u32 }),
            );
        }
        assert(messages::action_views(actions@) =~= views0 + r.observed(session));
        accepted
    }

    /// Takes note that a packet came, by its place in the stream of packets.
    pub fn note_arrival(&mut self, batch_id: BatchID, batch_pos: u8, actions: &mut Vec<Action>)
        ensures
            final(self).buffer == old(self).buffer,
            final(self)@ == old(self)@.arrived(seq_number(batch_id, batch_pos)),
            messages::action_views(final(actions)@) == messages::action_views(old(actions)@)
                + old(self)@.arrival_observed(seq_number(batch_id, batch_pos)),
    {
        let ghost views0 = messages::action_views(actions@);
        let number: u32 = batch_id.0 as u32 * 256 + batch_pos as u32;
        assert(number == seq_number(batch_id, batch_pos));
        let latest: u32 = match self.max_seq {
            Some(m) => m,
            None => number,
        };
        if latest > number {
            messages::push_action(
                actions,
                Action::Observe(
                    Observation::ReorderDistance {
                        session: self.session_id,
                        distance: latest - number,
                    },
                ),
            );
        } else {
            self.max_seq = Some(number);
        }
        assert(messages::action_views(actions@) =~= views0 + old(self)@.arrival_observed(
            seq_number(batch_id, batch_pos),
        ));
    }

    /// Takes note that the chunk at `position` came: it is not waited for any more.
    pub fn clear_pending(&mut self, position: BytePosition, now: Timestamp, actions: &mut Vec<
        Action,
    >)
        ensures
            final(self).buffer == old(self).buffer,
            final(self)@ == old(self)@.cleared(position),
            messages::action_views(final(actions)@) == messages::action_views(old(actions)@)
                + old(self)@.clear_observed(position, now),
    {
        let idx: u64 = (position.0 / 1384) as u64;
        let ghost views0 = messages::action_views(actions@);
        match self.pending.remove(idx) {
            Some(stamped) => {
                messages::push_action(
                    actions,
                    Action::Observe(
                        Observation::RetransmitRtt {
                            session: self.session_id,
                            rtt_ms: now.millis_since(stamped),
                        },
                    ),
                );
            },
            None => {},
        }
        assert(messages::action_views(actions@) =~= views0 + old(self)@.clear_observed(
            position,
            now,
        ));
    }

    fn candidates(
        &self,
        areas: &Vec<Area>,
        spans: &Vec<Span>,
    ) -> (positions: Vec<BytePosition>)
        requires
            self.wf(),
            forall|k: int|
                0 <= k < areas@.len() ==> (#[trigger] areas@[k]).start <= areas@[k].end
                    <= self@.buffer.filled.len(),
        ensures
            positions@ == outside(all_positions(areas@), spans@),
    {
        let mut positions: Vec<BytePosition> = Vec::new();
        let mut i: usize = 0;
        proof {
            self.buffer.lemma_wf();
        }
        assert(areas@.take(0) =~= seq![]);
        while i < areas.len()
            invariant
                i <= areas@.len(),
                self.buffer@.wf(),
                forall|k: int|
                    0 <= k < areas@.len() ==> (#[trigger] areas@[k]).start <= areas@[k].end
                        <= self@.buffer.filled.len(),
                positions@ == outside(all_positions(areas@.take(i as int)), spans@),
            decreases areas.len() - i,
        {
            let area: Area = areas[i];
            assert(areas@[i as int].end <= self@.buffer.filled.len());
            let ghost done = all_positions(areas@.take(i as int));
            let mut c: usize = area.start;
            assert(positions_of(area).take(0) =~= seq![]);
            assert(done + seq![] =~= done);
            while c < area.end
                invariant
                    area.start <= c <= area.end <= self.buffer@.filled.len(),
                    self.buffer@.wf(),
                    positions@ == outside(
                        done + positions_of(area).take(c - area.start),
                        spans@,
                    ),
                decreases area.end - c,
            {
                assert(c * 1384 < self.buffer@.data.len());
                let at: u32 = (c * 1384) as u32;
                let ghost n = c - area.start;
                let ghost more = done + positions_of(area).take(n + 1);
                assert(more.drop_last() =~= done + positions_of(area).take(n));
                assert(more.last() == positions_of(area)[n]);
                assert(more.last() == BytePosition(at));
                if !in_spans(spans, at) {
                    positions.push(BytePosition(at));
                }
                c += 1;
            }
            assert(positions_of(area).take(c - area.start) =~= positions_of(area));
            assert(areas@.take(i + 1).drop_last() =~= areas@.take(i as int));
            i += 1;
        }
        assert(areas@.take(i as int) =~= areas@);
        positions
    }

    /// The holes that are most worth asking for, as ranges to ask for. What a batch on its
    /// way holds is left out, and what was asked for already.
    pub fn score_policy_pick(
        &mut self,
        fec_active: &Vec<Span>,
        now: Timestamp,
        actions: &mut Vec<Action>,
    ) -> (picked: Vec<ByteRange>)
        requires
            old(self).wf(),
        ensures
            final(self).wf(),
            final(self).buffer == old(self).buffer,
            ({
                let positions = outside(all_positions(old(self)@.best_holes()), fec_active@);
                &&& final(self)@ == old(self)@.after_reserve(positions, now)
                &&& picked@ == ranges::coalesced(old(self)@.reserve(positions, now).accepted)
                &&& messages::action_views(final(actions)@) == messages::action_views(
                    old(actions)@,
                ) + old(self)@.reserve(positions, now).observed(old(self)@.session_id)
            }),
    {
        let areas: Vec<Area> = self.buffer.requestable_areas();
        proof {
            buffer_laws::areas_are_holes(self.buffer);
            lemma_top_areas_within(
                self.buffer.areas(),
                self@.buffer.head,
                self@.buffer.filled,
            );
        }
        let positions: Vec<BytePosition> = self.candidates(&areas, fec_active);
        let accepted: Vec<BytePosition> = self.reserve_for_request(positions, now, actions);
        ranges::coalesce_byte_positions(accepted)
    }

    /// All holes, as ranges to ask for, once the end of the stream was reached: what is
    /// missing then is lost. What a batch on its way holds is left out, and what was asked
    /// for already.
    pub fn finalize_sweep_pick(
        &mut self,
        fec_active: &Vec<Span>,
        now: Timestamp,
        actions: &mut Vec<Action>,
    ) -> (picked: Vec<ByteRange>)
        requires
            old(self).wf(),
        ensures
            final(self).wf(),
            final(self).buffer == old(self).buffer,
            ({
                let positions = outside(all_positions(old(self)@.all_holes()), fec_active@);
                &&& final(self)@ == old(self)@.after_reserve(positions, now)
                &&& picked@ == ranges::coalesced(old(self)@.reserve(positions, now).accepted)
                &&& messages::action_views(final(actions)@) == messages::action_views(
                    old(actions)@,
                ) + old(self)@.reserve(positions, now).observed(old(self)@.session_id)
            }),
    {
        let areas: Vec<Area> = self.buffer.all_invalid_areas();
        proof {
            buffer_laws::areas_are_holes(self.buffer);
        }
        assert(forall|k: int|
            0 <= k < areas@.len() ==> (#[trigger] areas@[k]).start <= areas@[k].end
                <= self@.buffer.filled.len());
        let positions: Vec<BytePosition> = self.candidates(&areas, fec_active);
        let accepted: Vec<BytePosition> = self.reserve_for_request(positions, now, actions);
        ranges::coalesce_byte_positions(accepted)
    }
}

proof fn lemma_best_in_range(scored: Seq<(Area, types::Score)>, n: int, skip: int)
    requires
        0 <= n <= scored.len(),
    ensures
        types::best_area(scored, n, skip) matches Some(b) ==> 0 <= b < n,
    decreases n,
{
    if n > 0 {
        lemma_best_in_range(scored, n - 1, skip);
    }
}

proof fn lemma_top_areas_within(areas: Seq<Area>, head: int, filled: Seq<bool>)
    requires
        types::lists_holes(areas, filled),
    ensures
        forall|k: int|
            0 <= k < types::top_areas(
                types::scored_areas(areas, head, filled.len() as int),
            ).len() ==> (#[trigger] types::top_areas(
                types::scored_areas(areas, head, filled.len() as int),
            )[k]).start <= types::top_areas(
                types::scored_areas(areas, head, filled.len() as int),
            )[k].end <= filled.len(),
{
    let scored = types::scored_areas(areas, head, filled.len() as int);
    let n = scored.len() as int;
    lemma_best_in_range(scored, n, -1);
    match types::best_area(scored, n, -1) {
        None => {},
        Some(a) => {
            lemma_best_in_range(scored, n, a);
            assert(scored[a].0 == areas[a]);
            match types::best_area(scored, n, a) {
                None => {},
                Some(b) => {
                    assert(scored[b].0 == areas[b]);
                },
            }
        },
    }
}

} // verus!
