//! What a receiver asks to be sent again: every missing chunk that nothing else will bring,
//! none that has arrived, and none twice in a row.
use vstd::prelude::*;

use crate::api::buffer_laws;
use crate::api::types;
use crate::api::types::{Area, WriteableView};
use crate::manager::fields::{BytePosition, SessionId};
use crate::manager::identity::Address;
use crate::manager::ranges;
use crate::manager::ranges::ByteRange;
use crate::manager::requests;
use crate::manager::session_fec;
use crate::manager::session_fec::FecBatchWindow;
use crate::manager::stream_state;
use crate::manager::stream_state::StreamingView;
use crate::manager::streaming;
use crate::manager::streaming::{FromView, Reserve};
use crate::manager::types::Timestamp;
use crate::manager::views::PacketView;
use crate::utils::data_collection::Observation;
use crate::utils::messages::{ActionView, StreamMessage};

verus! {

/// Whether chunk `c` of a buffer has still to arrive.
pub open spec fn lacks(buffer: WriteableView, c: int) -> bool {
    0 <= c < buffer.filled.len() && !buffer.filled[c]
}

/// Whether a batch that came in during the last half second will bring byte `b`.
pub open spec fn expected(fec: Map<u64, FecBatchWindow>, now: Timestamp, b: int) -> bool {
    exists|k: u64| #[trigger]
        fec.dom().contains(k) && now.0 - fec[k].created_at.0 <= 500 && brings(fec[k], b)
}

/// Whether the bytes of a batch are known to have byte `b` among them.
pub open spec fn brings(batch: FecBatchWindow, b: int) -> bool {
    &&& batch.is_contiguous
    &&& batch.base_byte_pos matches Some(base)
    &&& base.0 <= b < base.0 + batch.batch_size * 1384
}

/// Whether chunk `c` was asked for during the last half second.
pub open spec fn awaited(pending: Map<u64, Timestamp>, now: Timestamp, c: int) -> bool {
    0 <= c <= u64::MAX && pending.dom().contains(c as u64) && now.0 - pending[c as u64].0 <= 500
}

/// Whether one of the ranges has byte `b`.
pub open spec fn named(asked: Seq<ByteRange>, b: int) -> bool {
    exists|j: int|
        0 <= j < asked.len() && (#[trigger] asked[j]).start.0 <= b < asked[j].start.0
            + asked[j].length
}

/// Whether an action sends `address` a packet that asks for byte `b` of the session's stream.
pub open spec fn asks(action: ActionView, session: SessionId, address: Address, b: int) -> bool {
    &&& action matches ActionView::Send { packet, addr }
    &&& addr == address
    &&& packet matches PacketView::Retransmit(request)
    &&& request.session_id == session
    &&& named(request.payload, b)
}

/// Whether the actions send `address` a packet that asks for byte `b` of the session's
/// stream.
pub open spec fn asked(
    actions: Seq<ActionView>,
    session: SessionId,
    address: Address,
    b: int,
) -> bool {
    exists|i: int| 0 <= i < actions.len() && asks(#[trigger] actions[i], session, address, b)
}

/// Whether the area is a run of missing chunks that goes as far as it can.
pub open spec fn is_hole(filled: Seq<bool>, area: Area) -> bool {
    &&& area.start < area.end <= filled.len()
    &&& forall|i: int| area.start <= i < area.end ==> !#[trigger] filled[i]
    &&& area.start > 0 ==> filled[area.start - 1]
    &&& area.end < filled.len() ==> filled[area.end as int]
}

spec fn holes_below(filled: Seq<bool>, areas: Seq<Area>, n: int) -> bool {
    &&& forall|k: int| 0 <= k < areas.len() ==> (#[trigger] areas[k]).start < areas[k].end <= n
    &&& forall|k: int, l: int|
        #![trigger areas[k], areas[l]]
        0 <= k < l < areas.len() ==> areas[k].end < areas[l].start
    &&& forall|k: int, i: int|
        #![trigger areas[k], filled[i]]
        0 <= k < areas.len() && areas[k].start <= i < areas[k].end ==> !filled[i]
    &&& forall|i: int|
        0 <= i < n && !(#[trigger] filled[i]) ==> exists|k: int|
            0 <= k < areas.len() && (#[trigger] areas[k]).start <= i < areas[k].end
}

proof fn lemma_holes_below(filled: Seq<bool>, n: int) -> (areas: Seq<Area>)
    requires
        0 <= n <= filled.len(),
        filled.len() <= u32::MAX,
    ensures
        holes_below(filled, areas, n),
    decreases n,
{
    if n == 0 {
        let none: Seq<Area> = seq![];
        none
    } else {
        let before = lemma_holes_below(filled, n - 1);
        if filled[n - 1] {
            before
        } else if before.len() > 0 && before.last().end == n - 1 {
            let areas = before.update(
                before.len() - 1,
                Area { start: before.last().start, end: n as usize },
            );
            assert forall|i: int| 0 <= i < n && !(#[trigger] filled[i]) implies exists|k: int|
                0 <= k < areas.len() && (#[trigger] areas[k]).start <= i < areas[k].end by {
                if i < n - 1 {
                    let k = choose|k: int|
                        0 <= k < before.len() && (#[trigger] before[k]).start <= i < before[k].end;
                    assert(areas[k].start <= i < areas[k].end);
                } else {
                    assert(areas[before.len() - 1].start <= i);
                }
            }
            assert forall|k: int, i: int|
                #![trigger areas[k], filled[i]]
                0 <= k < areas.len() && areas[k].start <= i < areas[k].end implies !filled[i] by {
                assert(before[k].start == areas[k].start);
            }
            assert forall|k: int, l: int|
                #![trigger areas[k], areas[l]]
                0 <= k < l < areas.len() implies areas[k].end < areas[l].start by {
                assert(before[k].end < before[l].start);
            }
            areas
        } else {
            let areas = before.push(Area { start: (n - 1) as usize, end: n as usize });
            assert forall|i: int| 0 <= i < n && !(#[trigger] filled[i]) implies exists|k: int|
                0 <= k < areas.len() && (#[trigger] areas[k]).start <= i < areas[k].end by {
                if i < n - 1 {
                    let k = choose|k: int|
                        0 <= k < before.len() && (#[trigger] before[k]).start <= i < before[k].end;
                    assert(areas[k].start <= i < areas[k].end);
                } else {
                    assert(areas[before.len() as int].start <= i);
                }
            }
            assert forall|k: int, l: int|
                #![trigger areas[k], areas[l]]
                0 <= k < l < areas.len() implies areas[k].end < areas[l].start by {
                if l == before.len() {
                    assert(before[k].end <= before.last().end) by {
                        if k < before.len() - 1 {
                            assert(before[k].end < before[before.len() - 1].start);
                        }
                    }
                } else {
                    assert(before[k].end < before[l].start);
                }
            }
            areas
        }
    }
}

/// The runs of missing chunks are all the chunks that are missing, each in one run, and each
/// run goes as far as it can.
pub proof fn holes_are_what_is_missing(filled: Seq<bool>)
    requires
        filled.len() <= u32::MAX,
    ensures
        types::lists_holes(types::holes_of(filled), filled),
        forall|k: int|
            0 <= k < types::holes_of(filled).len() ==> is_hole(
                filled,
                #[trigger] types::holes_of(filled)[k],
            ),
        forall|i: int|
            0 <= i < filled.len() ==> ((!#[trigger] filled[i]) <==> exists|k: int|
                0 <= k < types::holes_of(filled).len() && (#[trigger] types::holes_of(
                    filled,
                )[k]).start <= i < types::holes_of(filled)[k].end),
{
    let areas = lemma_holes_below(filled, filled.len() as int);
    assert(types::lists_holes(areas, filled));
    let holes = types::holes_of(filled);
    assert(types::lists_holes(holes, filled));
    assert forall|k: int| 0 <= k < holes.len() implies is_hole(filled, #[trigger] holes[k]) by {
        let s = holes[k].start as int;
        let e = holes[k].end as int;
        if s > 0 && !filled[s - 1] {
            let l = choose|l: int|
                0 <= l < holes.len() && (#[trigger] holes[l]).start <= s - 1 < holes[l].end;
            if l < k {
                assert(holes[l].end < holes[k].start);
            } else if l > k {
                assert(holes[k].end < holes[l].start);
            }
        }
        if e < filled.len() && !filled[e] {
            let l = choose|l: int|
                0 <= l < holes.len() && (#[trigger] holes[l]).start <= e < holes[l].end;
            if l < k {
                assert(holes[l].end < holes[k].start);
            } else if l > k {
                assert(holes[k].end < holes[l].start);
            }
        }
    }
}

proof fn lemma_positions(areas: Seq<Area>, n: int)
    requires
        forall|k: int|
            0 <= k < areas.len() ==> (#[trigger] areas[k]).start < areas[k].end && areas[k].end
                * 1384 <= u32::MAX + 1384,
    ensures
        forall|k: int, c: int|
            #![trigger areas[k], streaming::all_positions(areas).contains(
                BytePosition((c * 1384) as u32),
            )]
            0 <= k < areas.len() && areas[k].start <= c < areas[k].end
                ==> streaming::all_positions(areas).contains(BytePosition((c * 1384) as u32)),
        forall|j: int|
            0 <= j < streaming::all_positions(areas).len() ==> exists|k: int|
                0 <= k < areas.len() && (#[trigger] areas[k]).start <= (
                #[trigger] streaming::all_positions(areas)[j]).0 / 1384 < areas[k].end
                && streaming::all_positions(areas)[j].0 % 1384 == 0,
    decreases areas.len(),
{
    let all = streaming::all_positions(areas);
    if areas.len() > 0 {
        let rest = areas.drop_last();
        let before = streaming::all_positions(rest);
        let last = areas.last();
        let own = streaming::positions_of(last);
        assert forall|k: int| 0 <= k < rest.len() implies (#[trigger] rest[k]).start < rest[k].end
            && rest[k].end * 1384 <= u32::MAX + 1384 by {
            assert(rest[k] == areas[k]);
        }
        lemma_positions(rest, n);
        assert(areas[areas.len() - 1] == last);
        assert forall|k: int, c: int|
            #![trigger areas[k], all.contains(BytePosition((c * 1384) as u32))]
            0 <= k < areas.len() && areas[k].start <= c < areas[k].end implies all.contains(
            BytePosition((c * 1384) as u32),
        ) by {
            if k < rest.len() {
                assert(rest[k] == areas[k]);
                assert(before.contains(BytePosition((c * 1384) as u32)));
                let j = choose|j: int|
                    0 <= j < before.len() && before[j] == BytePosition((c * 1384) as u32);
                assert(all[j] == before[j]);
            } else {
                let j = c - last.start;
                assert(own[j] == BytePosition((c * 1384) as u32));
                assert(all[before.len() + j] == own[j]);
            }
        }
        assert forall|j: int| 0 <= j < all.len() implies exists|k: int|
            0 <= k < areas.len() && (#[trigger] areas[k]).start <= (#[trigger] all[j]).0 / 1384
                < areas[k].end && all[j].0 % 1384 == 0 by {
            if j < before.len() {
                assert(all[j] == before[j]);
                let k = choose|k: int|
                    0 <= k < rest.len() && (#[trigger] rest[k]).start <= before[j].0 / 1384
                        < rest[k].end && before[j].0 % 1384 == 0;
                assert(areas[k] == rest[k]);
            } else {
                let i = j - before.len();
                assert(all[j] == own[i]);
                assert((last.start + i) * 1384 <= u32::MAX);
                assert(own[i].0 == (last.start + i) * 1384);
                assert(areas[areas.len() - 1].start <= all[j].0 / 1384);
            }
        }
    }
}

proof fn lemma_unexpected(
    positions: Seq<BytePosition>,
    fec: Map<u64, FecBatchWindow>,
    now: Timestamp,
)
    ensures
        forall|p: BytePosition| #[trigger]
            streaming::unexpected(positions, session_fec::live(fec, now)).contains(p) <==> (
            positions.contains(p) && !expected(fec, now, p.0 as int)),
    decreases positions.len(),
{
    let live = session_fec::live(fec, now);
    let all = streaming::unexpected(positions, live);
    if positions.len() > 0 {
        let rest = positions.drop_last();
        lemma_unexpected(rest, fec, now);
        let before = streaming::unexpected(rest, live);
        let last = positions.last();
        lemma_expected(fec, now, last.0 as int);
        assert forall|p: BytePosition| #[trigger]
            all.contains(p) <==> (positions.contains(p) && !expected(fec, now, p.0 as int)) by {
            assert(before.contains(p) <==> (rest.contains(p) && !expected(fec, now, p.0 as int)));
            if positions.contains(p) {
                let j = choose|j: int| 0 <= j < positions.len() && positions[j] == p;
                if j < rest.len() {
                    assert(rest[j] == p);
                }
            }
            if rest.contains(p) {
                let j = choose|j: int| 0 <= j < rest.len() && rest[j] == p;
                assert(positions[j] == p);
            }
            assert(positions[positions.len() - 1] == last);
            if all != before {
                assert(all == before.push(last));
                assert(all[before.len() as int] == last);
                if before.contains(p) {
                    let j = choose|j: int| 0 <= j < before.len() && before[j] == p;
                    assert(all[j] == p);
                }
                if all.contains(p) {
                    let j = choose|j: int| 0 <= j < all.len() && all[j] == p;
                    assert(j < before.len() ==> before[j] == p);
                }
            }
        }
    }
}

proof fn lemma_expected(fec: Map<u64, FecBatchWindow>, now: Timestamp, b: int)
    ensures
        session_fec::batches_cover(session_fec::live(fec, now), b) <==> expected(fec, now, b),
{
    let live = session_fec::live(fec, now);
    if session_fec::batches_cover(live, b) {
        let k = choose|k: u64| #[trigger] live.dom().contains(k) && live[k].covers(b);
        assert(fec.dom().contains(k));
    }
    if expected(fec, now, b) {
        let k = choose|k: u64| #[trigger]
            fec.dom().contains(k) && now.0 - fec[k].created_at.0 <= 500 && brings(fec[k], b);
        assert(live.dom().contains(k));
        assert(live[k].covers(b));
    }
}

pub proof fn lemma_reserve(
    pending: Map<u64, Timestamp>,
    buffer: WriteableView,
    positions: Seq<BytePosition>,
    now: Timestamp,
)
    requires
        buffer.wf(),
        forall|j: int|
            0 <= j < positions.len() ==> (#[trigger] positions[j]).0 % 1384 == 0 && positions[j].0
                / 1384 < buffer.filled.len(),
    ensures
        ({
            let after = Reserve::begin(pending).steps(buffer, positions, now);
            &&& forall|p: BytePosition| #[trigger]
                after.accepted.contains(p) <==> (positions.contains(p) && lacks(
                    buffer,
                    p.0 as int / 1384,
                ) && !pending.dom().contains((p.0 / 1384) as u64))
            &&& forall|c: u64| #[trigger]
                after.pending.dom().contains(c) <==> (pending.dom().contains(c) || (
                positions.contains(BytePosition((c * 1384) as u32)) && c * 1384 <= u32::MAX
                    && lacks(buffer, c as int)))
            &&& forall|c: u64| #[trigger]
                after.pending.dom().contains(c) ==> after.pending[c] == if pending.dom().contains(
                    c,
                ) {
                    pending[c]
                } else {
                    now
                }
        }),
    decreases positions.len(),
{
    let begin = Reserve::begin(pending);
    let after = begin.steps(buffer, positions, now);
    if positions.len() > 0 {
        let rest = positions.drop_last();
        let last = positions.last();
        assert forall|j: int| 0 <= j < rest.len() implies (#[trigger] rest[j]).0 % 1384 == 0
            && rest[j].0 / 1384 < buffer.filled.len() by {
            assert(rest[j] == positions[j]);
        }
        lemma_reserve(pending, buffer, rest, now);
        let before = begin.steps(buffer, rest, now);
        assert(after == before.step(buffer, last, now));
        assert(positions[positions.len() - 1] == last);
        assert forall|p: BytePosition| #[trigger] positions.contains(p) <==> (rest.contains(p) || p
            == last) by {
            if positions.contains(p) {
                let j = choose|j: int| 0 <= j < positions.len() && positions[j] == p;
                if j < rest.len() {
                    assert(rest[j] == p);
                }
            }
            if rest.contains(p) {
                let j = choose|j: int| 0 <= j < rest.len() && rest[j] == p;
                assert(positions[j] == p);
            }
        }
        let idx = streaming::chunk_at(last);
        assert(last.0 as int / 1384 * 1384 == last.0);
        assert(lacks(buffer, last.0 as int / 1384) <==> (buffer.index_of(
            last.0 as int,
        ) matches Some(i) && !buffer.filled[i]));
        assert forall|p: BytePosition| #[trigger] after.accepted.contains(p) <==> (
        positions.contains(p) && lacks(buffer, p.0 as int / 1384) && !pending.dom().contains(
            (p.0 / 1384) as u64,
        )) by {
            assert(before.accepted.contains(p) <==> (rest.contains(p) && lacks(
                buffer,
                p.0 as int / 1384,
            ) && !pending.dom().contains((p.0 / 1384) as u64)));
            if after.accepted != before.accepted {
                assert(after.accepted == before.accepted.push(last));
                assert(after.accepted[before.accepted.len() as int] == last);
                if before.accepted.contains(p) {
                    let j = choose|j: int|
                        0 <= j < before.accepted.len() && before.accepted[j] == p;
                    assert(after.accepted[j] == p);
                }
                if after.accepted.contains(p) {
                    let j = choose|j: int|
                        0 <= j < after.accepted.len() && after.accepted[j] == p;
                    assert(j < before.accepted.len() ==> before.accepted[j] == p);
                }
                assert(!before.pending.dom().contains(idx));
            } else if lacks(buffer, last.0 as int / 1384) {
                assert(before.pending.dom().contains(idx));
                if !pending.dom().contains(idx) {
                    assert(rest.contains(BytePosition((idx * 1384) as u32)));
                    assert(BytePosition((idx * 1384) as u32) == last);
                }
            }
        }
        assert forall|c: u64| #[trigger] after.pending.dom().contains(c) <==> (
        pending.dom().contains(c) || (positions.contains(BytePosition((c * 1384) as u32)) && c
            * 1384 <= u32::MAX && lacks(buffer, c as int))) by {
            assert(before.pending.dom().contains(c) <==> (pending.dom().contains(c) || (
            rest.contains(BytePosition((c * 1384) as u32)) && c * 1384 <= u32::MAX && lacks(
                buffer,
                c as int,
            ))));
            assert(c == idx ==> BytePosition((c * 1384) as u32) == last);
            assert(c * 1384 <= u32::MAX && BytePosition((c * 1384) as u32) == last ==> c == idx);
        }
    }
}

pub proof fn lemma_sends(
    session: SessionId,
    address: Address,
    wanted: Seq<ByteRange>,
    now: Timestamp,
    b: int,
)
    ensures
        asked(requests::retransmit_sends(session, address, wanted, now), session, address, b)
            <==> ranges::ranges_have(wanted, b),
{
    let sends = requests::retransmit_sends(session, address, wanted, now);
    if ranges::ranges_have(wanted, b) {
        let k = choose|k: int| 0 <= k < wanted.len() && (#[trigger] wanted[k]).has(b);
        let i = k / 230;
        assert(0 <= i < sends.len());
        let payload = wanted.subrange(
            i * 230,
            if i * 230 + 230 <= wanted.len() {
                i * 230 + 230
            } else {
                wanted.len() as int
            },
        );
        assert(payload[k - i * 230] == wanted[k]);
        assert(named(payload, b));
        assert(asks(sends[i], session, address, b));
    }
    if asked(sends, session, address, b) {
        let i = choose|i: int|
            0 <= i < sends.len() && asks(#[trigger] sends[i], session, address, b);
        let payload = wanted.subrange(
            i * 230,
            if i * 230 + 230 <= wanted.len() {
                i * 230 + 230
            } else {
                wanted.len() as int
            },
        );
        let j = choose|j: int|
            0 <= j < payload.len() && (#[trigger] payload[j]).start.0 <= b < payload[j].start.0
                + payload[j].length;
        assert(wanted[i * 230 + j] == payload[j]);
        assert(wanted[i * 230 + j].has(b));
    }
}

pub proof fn lemma_asked_add(
    first: Seq<ActionView>,
    second: Seq<ActionView>,
    session: SessionId,
    address: Address,
    b: int,
)
    ensures
        asked(first + second, session, address, b) <==> (asked(first, session, address, b)
            || asked(second, session, address, b)),
{
    let both = first + second;
    if asked(first, session, address, b) {
        let i = choose|i: int|
            0 <= i < first.len() && asks(#[trigger] first[i], session, address, b);
        assert(both[i] == first[i]);
    }
    if asked(second, session, address, b) {
        let i = choose|i: int|
            0 <= i < second.len() && asks(#[trigger] second[i], session, address, b);
        assert(both[first.len() + i] == second[i]);
    }
    if asked(both, session, address, b) {
        let i = choose|i: int| 0 <= i < both.len() && asks(#[trigger] both[i], session, address, b);
        if i < first.len() {
            assert(first[i] == both[i]);
        } else {
            assert(second[i - first.len()] == both[i]);
        }
    }
}

proof fn lemma_request(
    from: FromView,
    areas: Seq<Area>,
    fec: Map<u64, FecBatchWindow>,
    session: SessionId,
    address: Address,
    now: Timestamp,
    c: int,
    b: int,
)
    requires
        from.buffer.wf(),
        forall|k: int| 0 <= k < areas.len() ==> is_hole(from.buffer.filled, #[trigger] areas[k]),
        0 <= c < from.buffer.filled.len(),
        c * 1384 <= b < c * 1384 + 1384,
    ensures
        ({
            let positions = streaming::unexpected(
                streaming::all_positions(areas),
                session_fec::live(fec, now),
            );
            let sends = requests::retransmit_sends(
                session,
                address,
                ranges::coalesced(from.reserve(positions, now).accepted),
                now,
            );
            let after = from.after_reserve(positions, now);
            let in_hole = exists|k: int|
                0 <= k < areas.len() && (#[trigger] areas[k]).start <= c < areas[k].end;
            &&& asked(sends, session, address, b) <==> in_hole && !expected(fec, now, c * 1384)
                && !awaited(from.pending, now, c)
            &&& after.pending.dom().contains(c as u64) <==> awaited(from.pending, now, c) || (
            in_hole && !expected(fec, now, c * 1384))
            &&& after.pending.dom().contains(c as u64) ==> after.pending[c as u64] == if awaited(
                from.pending,
                now,
                c,
            ) {
                from.pending[c as u64]
            } else {
                now
            }
        }),
{
    let buffer = from.buffer;
    let all = streaming::all_positions(areas);
    let positions = streaming::unexpected(all, session_fec::live(fec, now));
    let fresh = streaming::fresh_pending(from.pending, now);
    let reserve = from.reserve(positions, now);
    let p = BytePosition((c * 1384) as u32);
    assert(c * 1384 <= u32::MAX);
    assert forall|k: int| 0 <= k < areas.len() implies (#[trigger] areas[k]).start < areas[k].end
        && areas[k].end * 1384 <= u32::MAX + 1384 by {
        assert(is_hole(buffer.filled, areas[k]));
    }
    lemma_positions(areas, 0);
    lemma_unexpected(all, fec, now);
    assert forall|j: int| 0 <= j < positions.len() implies (#[trigger] positions[j]).0 % 1384 == 0
        && positions[j].0 / 1384 < buffer.filled.len() by {
        assert(positions.contains(positions[j]));
        assert(all.contains(positions[j]));
        let i = choose|i: int| 0 <= i < all.len() && all[i] == positions[j];
        let k = choose|k: int|
            0 <= k < areas.len() && (#[trigger] areas[k]).start <= all[i].0 / 1384 < areas[k].end
                && all[i].0 % 1384 == 0;
        assert(is_hole(buffer.filled, areas[k]));
    }
    lemma_reserve(fresh, buffer, positions, now);
    let in_hole = exists|k: int|
        0 <= k < areas.len() && (#[trigger] areas[k]).start <= c < areas[k].end;
    assert(fresh.dom().contains(c as u64) <==> awaited(from.pending, now, c));
    assert(all.contains(p) <==> in_hole) by {
        if all.contains(p) {
            let i = choose|i: int| 0 <= i < all.len() && all[i] == p;
            let k = choose|k: int|
                0 <= k < areas.len() && (#[trigger] areas[k]).start <= all[i].0 / 1384
                    < areas[k].end && all[i].0 % 1384 == 0;
            assert(areas[k].start <= c < areas[k].end);
        }
        if in_hole {
            let k = choose|k: int|
                0 <= k < areas.len() && (#[trigger] areas[k]).start <= c < areas[k].end;
            assert(areas[k].start <= c < areas[k].end);
        }
    }
    assert(in_hole ==> lacks(buffer, c)) by {
        if in_hole {
            let k = choose|k: int|
                0 <= k < areas.len() && (#[trigger] areas[k]).start <= c < areas[k].end;
            assert(is_hole(buffer.filled, areas[k]));
            assert(!buffer.filled[c]);
        }
    }
    assert(p.0 as int / 1384 == c);
    assert(positions.contains(p) <==> (all.contains(p) && !expected(fec, now, c * 1384)));
    let accepted = reserve.accepted;
    assert(accepted.contains(p) <==> (positions.contains(p) && lacks(buffer, c)
        && !fresh.dom().contains(c as u64)));
    ranges::coalesced_covers_positions(accepted, b);
    assert(ranges::positions_have(accepted, b) <==> accepted.contains(p)) by {
        if accepted.contains(p) {
            let j = choose|j: int| 0 <= j < accepted.len() && accepted[j] == p;
            assert(ranges::chunk_range(accepted[j]).has(b));
        }
        if ranges::positions_have(accepted, b) {
            let j = choose|j: int|
                0 <= j < accepted.len() && ranges::chunk_range(#[trigger] accepted[j]).has(b);
            let q = accepted[j];
            assert(accepted.contains(q));
            assert(positions.contains(q));
            let i = choose|i: int| 0 <= i < positions.len() && positions[i] == q;
            assert(positions[i].0 % 1384 == 0);
            assert(q.0 <= b < q.0 + 1384);
            assert(q.0 as int == c * 1384);
        }
    }
    lemma_sends(session, address, ranges::coalesced(accepted), now, b);
    assert(reserve.pending.dom().contains(c as u64) <==> (fresh.dom().contains(c as u64) || (
    positions.contains(BytePosition((c as u64 * 1384) as u32)) && c as u64 * 1384 <= u32::MAX
        && lacks(buffer, c))));
}

pub proof fn lemma_observed(reserve: Reserve, session: SessionId, of: SessionId, address: Address, b: int)
    ensures
        !asked(reserve.observed(of), session, address, b),
{
    let told = reserve.observed(of);
    assert forall|i: int| 0 <= i < told.len() implies !asks(#[trigger] told[i], session, address, b) by {
        assert(told[i] is Observe);
    }
}

/// Once the head of a stream has reached the end, every chunk that is missing is asked for, in
/// a packet to the peer, unless a batch that is under way will bring it or it was asked for
/// within the last half second. Nothing else is asked for. What was asked for is remembered,
/// so that it is not asked for again at once.
pub proof fn every_missing_chunk_is_asked_for(
    from: FromView,
    message: StreamMessage,
    fec: Map<u64, FecBatchWindow>,
    settled: bool,
    session: SessionId,
    address: Address,
    now: Timestamp,
    c: int,
    b: int,
)
    requires
        from.buffer.wf(),
        from.buffer.head >= from.buffer.data.len(),
        0 <= c < from.buffer.filled.len(),
        c * 1384 <= b < c * 1384 + 1384,
    ensures
        ({
            let step = stream_state::request_step(
                from,
                message,
                fec,
                settled,
                session,
                address,
                now,
            );
            let after = step.stream.streaming->From_0;
            let wanted = lacks(from.buffer, c) && !expected(fec, now, c * 1384);
            &&& asked(step.actions, session, address, b) <==> wanted && !awaited(
                from.pending,
                now,
                c,
            )
            &&& step.stream.streaming is From
            &&& after.buffer == from.buffer
            &&& awaited(after.pending, now, c) <==> awaited(from.pending, now, c) || wanted
            &&& step.stream.message == message
        }),
{
    let areas = from.all_holes();
    holes_are_what_is_missing(from.buffer.filled);
    lemma_request(from, areas, fec, session, address, now, c, b);
    lemma_request_actions(from, areas, message, fec, settled, session, address, now, b);
    assert(lacks(from.buffer, c) <==> exists|k: int|
        0 <= k < areas.len() && (#[trigger] areas[k]).start <= c < areas[k].end);
}

proof fn lemma_request_actions(
    from: FromView,
    areas: Seq<Area>,
    message: StreamMessage,
    fec: Map<u64, FecBatchWindow>,
    settled: bool,
    session: SessionId,
    address: Address,
    now: Timestamp,
    b: int,
)
    requires
        areas == if from.buffer.at_end() {
            from.all_holes()
        } else {
            from.best_holes()
        },
        from.buffer.at_end() || settled,
    ensures
        ({
            let step = stream_state::request_step(
                from,
                message,
                fec,
                settled,
                session,
                address,
                now,
            );
            let positions = streaming::unexpected(
                streaming::all_positions(areas),
                session_fec::live(fec, now),
            );
            &&& asked(step.actions, session, address, b) <==> asked(
                requests::retransmit_sends(
                    session,
                    address,
                    ranges::coalesced(from.reserve(positions, now).accepted),
                    now,
                ),
                session,
                address,
                b,
            )
            &&& step.stream.streaming == StreamingView::From(from.after_reserve(positions, now))
        }),
{
    let positions = streaming::unexpected(
        streaming::all_positions(areas),
        session_fec::live(fec, now),
    );
    let reserve = from.reserve(positions, now);
    lemma_observed(reserve, session, from.session_id, address, b);
    lemma_asked_add(
        reserve.observed(from.session_id),
        requests::retransmit_sends(session, address, ranges::coalesced(reserve.accepted), now),
        session,
        address,
        b,
    );
}

/// Whether chunk `c` is in one of the areas.
pub open spec fn chunk_in(areas: Seq<Area>, c: int) -> bool {
    exists|k: int| 0 <= k < areas.len() && (#[trigger] areas[k]).start <= c < areas[k].end
}

/// How many of the chunks from `i` on have arrived.
pub open spec fn arrived_from(filled: Seq<bool>, i: int) -> int
    decreases filled.len() - i,
{
    if 0 <= i < filled.len() {
        arrived_from(filled, i + 1) + if filled[i] {
            1int
        } else {
            0
        }
    } else {
        0
    }
}

/// What a hole is worth asking for, as a fraction. The sooner its bytes are wanted and the
/// more chunks have arrived past it, the more.
pub open spec fn worth(filled: Seq<bool>, head_chunk: int, hole: Area) -> (int, int) {
    let past = arrived_from(filled, hole.end as int);
    let size = hole.end - hole.start;
    if hole.start >= head_chunk {
        (4 * past, (4 + hole.start - head_chunk) * (past + 4))
    } else if size <= 7 {
        (size * past, 8 * (past + 4))
    } else {
        (9 * past, 10 * (past + 4))
    }
}

/// Whether one fraction is at least another.
pub open spec fn at_least(a: (int, int), b: (int, int)) -> bool {
    a.0 * b.1 >= b.0 * a.1
}

proof fn lemma_arrived_bounds(filled: Seq<bool>, i: int)
    requires
        0 <= i <= filled.len(),
    ensures
        0 <= arrived_from(filled, i) <= filled.len() - i,
    decreases filled.len() - i,
{
    if i < filled.len() {
        lemma_arrived_bounds(filled, i + 1);
    }
}

proof fn lemma_arrived_run(filled: Seq<bool>, i: int, j: int, run: bool)
    requires
        0 <= i <= j <= filled.len(),
        forall|k: int| i <= k < j ==> #[trigger] filled[k] == run,
    ensures
        arrived_from(filled, i) == arrived_from(filled, j) + if run {
            j - i
        } else {
            0
        },
    decreases j - i,
{
    if i < j {
        lemma_arrived_run(filled, i + 1, j, run);
        assert(filled[i] == run);
    }
}

proof fn lemma_past(filled: Seq<bool>, holes: Seq<Area>, k: int)
    requires
        types::lists_holes(holes, filled),
        0 <= k < holes.len(),
    ensures
        arrived_from(filled, holes[k].end as int) == filled.len() - holes[k].end
            - types::suffix_invalid(holes, k + 1),
    decreases holes.len() - k,
{
    let e = holes[k].end as int;
    if k + 1 < holes.len() {
        let s = holes[k + 1].start as int;
        let f = holes[k + 1].end as int;
        lemma_past(filled, holes, k + 1);
        assert forall|i: int| e <= i < s implies #[trigger] filled[i] == true by {
            if !filled[i] {
                let l = choose|l: int|
                    0 <= l < holes.len() && (#[trigger] holes[l]).start <= i < holes[l].end;
                if l < k {
                    assert(holes[l].end < holes[k].start);
                } else if l > k + 1 {
                    assert(holes[k + 1].end < holes[l].start);
                }
            }
        }
        lemma_arrived_run(filled, e, s, true);
        lemma_arrived_run(filled, s, f, false);
    } else {
        assert(types::suffix_invalid(holes, k + 1) == 0);
        assert forall|i: int| e <= i < filled.len() implies #[trigger] filled[i] == true by {
            if !filled[i] {
                let l = choose|l: int|
                    0 <= l < holes.len() && (#[trigger] holes[l]).start <= i < holes[l].end;
                if l < k {
                    assert(holes[l].end < holes[k].start);
                }
            }
        }
        lemma_arrived_run(filled, e, filled.len() as int, true);
    }
}

proof fn lemma_worth(filled: Seq<bool>, holes: Seq<Area>, head: int, k: int)
    requires
        types::lists_holes(holes, filled),
        0 <= k < holes.len(),
        0 <= head <= u32::MAX,
        filled.len() <= 0x40_0000,
    ensures
        ({
            let score = types::scored_areas(holes, head, filled.len() as int)[k].1;
            let w = worth(filled, head / 1384, holes[k]);
            &&& score.num as int == w.0
            &&& score.den as int == w.1
            &&& w.1 > 0
        }),
{
    lemma_past(filled, holes, k);
    let a = holes[k];
    lemma_arrived_bounds(filled, a.end as int);
    let past = arrived_from(filled, a.end as int);
    let u = a.urgency_spec(head / 1384);
    assert(0 <= u.0 <= 9 && 0 < u.1 <= 0x40_0004);
    assert(0 <= u.0 * past <= 9 * 0x40_0000) by (nonlinear_arith)
        requires
            0 <= u.0 <= 9,
            0 <= past <= 0x40_0000,
    ;
    assert(0 < u.1 * (past + 4) <= 0x40_0004 * 0x40_0004) by (nonlinear_arith)
        requires
            0 < u.1 <= 0x40_0004,
            0 <= past <= 0x40_0000,
    ;
}

/// Whether `picked` are the two holes most worth asking for, as far as there are two that are
/// worth three tenths.
pub open spec fn are_best(picked: Seq<Area>, filled: Seq<bool>, head_chunk: int) -> bool {
    &&& picked.len() <= 2
    &&& picked.len() == 2 ==> picked[0] != picked[1]
    &&& forall|k: int|
        0 <= k < picked.len() ==> is_hole(filled, #[trigger] picked[k]) && at_least(
            worth(filled, head_chunk, picked[k]),
            (3, 10),
        )
    &&& forall|hole: Area| #[trigger]
        is_hole(filled, hole) && at_least(worth(filled, head_chunk, hole), (3, 10)) ==> (
        picked.contains(hole) || (picked.len() == 2 && at_least(
            worth(filled, head_chunk, picked[0]),
            worth(filled, head_chunk, hole),
        ) && at_least(worth(filled, head_chunk, picked[1]), worth(filled, head_chunk, hole))))
}

proof fn lemma_hole_listed(filled: Seq<bool>, holes: Seq<Area>, hole: Area) -> (k: int)
    requires
        types::lists_holes(holes, filled),
        is_hole(filled, hole),
        forall|k: int| 0 <= k < holes.len() ==> is_hole(filled, #[trigger] holes[k]),
    ensures
        0 <= k < holes.len(),
        holes[k] == hole,
{
    assert(!filled[hole.start as int]);
    let k = choose|k: int|
        0 <= k < holes.len() && (#[trigger] holes[k]).start <= hole.start < holes[k].end;
    assert(is_hole(filled, holes[k]));
    if holes[k].start < hole.start {
        assert(!filled[hole.start - 1]);
    }
    if holes[k].end < hole.end {
        assert(!filled[holes[k].end as int]);
    }
    if hole.end < holes[k].end {
        assert(!filled[hole.end as int]);
    }
    k
}

/// The holes that are asked for while more of a stream is to come are the two most worth it.
pub proof fn picked_holes_are_best(from: FromView)
    requires
        from.buffer.wf(),
    ensures
        are_best(from.best_holes(), from.buffer.filled, from.buffer.head / 1384),
{
    let filled = from.buffer.filled;
    let head = from.buffer.head;
    let holes = types::holes_of(filled);
    let scored = types::scored_areas(holes, head, filled.len() as int);
    let picked = from.best_holes();
    assert(filled.len() <= 0x40_0000);
    holes_are_what_is_missing(filled);
    assert forall|k: int| 0 <= k < scored.len() implies (#[trigger] scored[k]).1.den > 0
        && scored[k].0 == holes[k] && scored[k].1.num as int == worth(
        filled,
        head / 1384,
        holes[k],
    ).0 && scored[k].1.den as int == worth(filled, head / 1384, holes[k]).1 by {
        lemma_worth(filled, holes, head, k);
    }
    buffer_laws::top_areas_reach_threshold(scored);
    assert forall|k: int| 0 <= k < picked.len() implies is_hole(filled, #[trigger] picked[k])
        && at_least(worth(filled, head / 1384, picked[k]), (3, 10)) by {
        let i = choose|i: int|
            0 <= i < scored.len() && (#[trigger] scored[i]).0 == picked[k]
                && types::reaches_threshold(scored[i].1);
        assert(picked[k] == types::top_areas(scored)[k]);
        assert(scored[i].0 == picked[k]);
        assert(is_hole(filled, holes[i]));
    }
    assert forall|hole: Area| #[trigger]
        is_hole(filled, hole) && at_least(worth(filled, head / 1384, hole), (3, 10)) implies (
    picked.contains(hole) || (picked.len() == 2 && at_least(
        worth(filled, head / 1384, picked[0]),
        worth(filled, head / 1384, hole),
    ) && at_least(worth(filled, head / 1384, picked[1]), worth(filled, head / 1384, hole)))) by {
        let i = lemma_hole_listed(filled, holes, hole);
        assert(scored[i].0 == hole);
        assert(types::reaches_threshold(scored[i].1));
        buffer_laws::top_area_is_best(scored, i);
        let a = types::best_area(scored, scored.len() as int, -1)->0;
        assert(scored[a].0 == holes[a]);
        if i == a {
            assert(picked[0] == hole);
        } else {
            buffer_laws::second_area_is_next_best(scored, a, i);
            let b = types::best_area(scored, scored.len() as int, a)->0;
            assert(scored[b].0 == holes[b]);
            assert(picked[0] == holes[a]);
            assert(picked[1] == holes[b]);
        }
    }
    if picked.len() == 2 {
        let a = types::best_area(scored, scored.len() as int, -1)->0;
        let b = types::best_area(scored, scored.len() as int, a)->0;
        lemma_two(scored, a, b);
        assert(scored[a].0 == holes[a] && scored[b].0 == holes[b]);
        if a < b {
            assert(holes[a].end < holes[b].start);
        } else {
            assert(holes[b].end < holes[a].start);
        }
    }
}

proof fn lemma_picked(scored: Seq<(Area, types::Score)>, n: int, skip: int)
    requires
        n <= scored.len(),
    ensures
        types::best_area(scored, n, skip) matches Some(b) ==> 0 <= b < n && b != skip,
    decreases n,
{
    if n > 0 {
        lemma_picked(scored, n - 1, skip);
    }
}

proof fn lemma_two(scored: Seq<(Area, types::Score)>, a: int, b: int)
    requires
        types::best_area(scored, scored.len() as int, -1) == Some(a),
        types::best_area(scored, scored.len() as int, a) == Some(b),
    ensures
        0 <= a < scored.len(),
        0 <= b < scored.len(),
        a != b,
{
    lemma_picked(scored, scored.len() as int, -1);
    lemma_picked(scored, scored.len() as int, a);
}

/// While more of a stream is to come, the end of a batch makes the receiver ask for every
/// chunk of the two holes most worth it, in packets to the peer, but for the chunks that a
/// batch under way will bring or that were asked for within the last half second. Nothing
/// else is asked for. What was asked for is remembered.
pub proof fn every_chunk_of_the_best_holes_is_asked_for(
    from: FromView,
    message: StreamMessage,
    fec: Map<u64, FecBatchWindow>,
    session: SessionId,
    address: Address,
    now: Timestamp,
) -> (picked: Seq<Area>)
    requires
        from.buffer.wf(),
        from.buffer.head < from.buffer.data.len(),
    ensures
        are_best(picked, from.buffer.filled, from.buffer.head / 1384),
        ({
            let step = stream_state::request_step(from, message, fec, true, session, address, now);
            let after = step.stream.streaming->From_0;
            &&& step.stream.streaming is From
            &&& after.buffer == from.buffer
            &&& step.stream.message == message
            &&& forall|c: int, b: int|
                #![trigger asked(step.actions, session, address, b), chunk_in(picked, c)]
                0 <= c < from.buffer.filled.len() && c * 1384 <= b < c * 1384 + 1384 ==> (asked(
                    step.actions,
                    session,
                    address,
                    b,
                ) <==> chunk_in(picked, c)
                    && !expected(fec, now, c * 1384) && !awaited(from.pending, now, c))
            &&& forall|c: int|
                0 <= c < from.buffer.filled.len() ==> (#[trigger] awaited(after.pending, now, c)
                    <==> awaited(from.pending, now, c) || (chunk_in(picked, c)
                    && !expected(fec, now, c * 1384)))
        }),
{
    let areas = from.best_holes();
    picked_holes_are_best(from);
    let step = stream_state::request_step(from, message, fec, true, session, address, now);
    let after = step.stream.streaming->From_0;
    assert forall|c: int, b: int|
        #![trigger asked(step.actions, session, address, b), chunk_in(areas, c)]
        0 <= c < from.buffer.filled.len() && c * 1384 <= b < c * 1384 + 1384 implies (asked(
        step.actions,
        session,
        address,
        b,
    ) <==> chunk_in(areas, c) && !expected(
        fec,
        now,
        c * 1384,
    ) && !awaited(from.pending, now, c)) by {
        lemma_request(from, areas, fec, session, address, now, c, b);
        lemma_request_actions(from, areas, message, fec, true, session, address, now, b);
    }
    assert forall|c: int| 0 <= c < from.buffer.filled.len() implies (#[trigger] awaited(
        after.pending,
        now,
        c,
    ) <==> awaited(from.pending, now, c) || (chunk_in(areas, c) && !expected(
        fec,
        now,
        c * 1384,
    ))) by {
        lemma_request(from, areas, fec, session, address, now, c, c * 1384);
        lemma_request_actions(from, areas, message, fec, true, session, address, now, c * 1384);
    }
    lemma_request_actions(from, areas, message, fec, true, session, address, now, 0);
    areas
}

/// The first packet of a batch to come makes all bytes of the batch expected, from where its
/// first packet stands, for half a second; a later one keeps that if it stands where it should,
/// and leaves other batches alone.
pub proof fn a_batch_brings_its_bytes(
    fec: Map<u64, FecBatchWindow>,
    batch_id: crate::manager::fields::BatchID,
    info: ranges::FECInfo,
    start: BytePosition,
    now: Timestamp,
    later: Timestamp,
    b: int,
)
    requires
        start.0 >= info.batch_pos * 1384,
        now.0 <= later.0,
    ensures
        ({
            let after = session_fec::with_packet(fec, batch_id, info, start, now);
            let key = batch_id.0 as u64;
            let base = start.0 - info.batch_pos * 1384;
            &&& !fec.dom().contains(key) && later.0 - now.0 <= 500 && base <= b < base
                + info.batch_size * 1384 ==> expected(after, later, b)
            &&& fec.dom().contains(key) && fec[key].base_byte_pos == Some(
                BytePosition(base as u32),
            ) ==> after[key] == fec[key]
            &&& fec.dom().contains(key) && fec[key].base_byte_pos is Some
                && fec[key].base_byte_pos != Some(BytePosition(base as u32)) ==> !brings(
                after[key],
                b,
            )
            &&& forall|k: u64|
                k != key && #[trigger] fec.dom().contains(k) ==> after.dom().contains(k)
                    && after[k] == fec[k]
        }),
{
    let after = session_fec::with_packet(fec, batch_id, info, start, now);
    let key = batch_id.0 as u64;
    if !fec.dom().contains(key) {
        assert(after.dom().contains(key));
        assert(after[key].created_at == now);
        assert(after[key].base_byte_pos == Some(
            BytePosition((start.0 - info.batch_pos * 1384) as u32),
        ));
    }
}

/// The bytes that ranges have, all together.
pub open spec fn bytes_in(asked: Seq<ByteRange>) -> int
    decreases asked.len(),
{
    if asked.len() == 0 {
        0
    } else {
        bytes_in(asked.drop_last()) + asked.last().length
    }
}

/// The bytes that packets ask for, all together.
pub open spec fn bytes_asked(actions: Seq<ActionView>) -> int
    decreases actions.len(),
{
    if actions.len() == 0 {
        0
    } else {
        bytes_asked(actions.drop_last()) + match actions.last() {
            ActionView::Send { packet: PacketView::Retransmit(request), addr: _ } => bytes_in(
                request.payload,
            ),
            _ => 0,
        }
    }
}

proof fn lemma_bytes_in_add(a: Seq<ByteRange>, b: Seq<ByteRange>)
    ensures
        bytes_in(a + b) == bytes_in(a) + bytes_in(b),
    decreases b.len(),
{
    if b.len() == 0 {
        assert(a + b =~= a);
    } else {
        lemma_bytes_in_add(a, b.drop_last());
        assert((a + b).drop_last() =~= a + b.drop_last());
        assert((a + b).last() == b.last());
    }
}

proof fn lemma_bytes_asked_add(a: Seq<ActionView>, b: Seq<ActionView>)
    ensures
        bytes_asked(a + b) == bytes_asked(a) + bytes_asked(b),
    decreases b.len(),
{
    if b.len() == 0 {
        assert(a + b =~= a);
    } else {
        lemma_bytes_asked_add(a, b.drop_last());
        assert((a + b).drop_last() =~= a + b.drop_last());
        assert((a + b).last() == b.last());
    }
}

proof fn lemma_coalesced_bytes(current: ByteRange, rest: Seq<BytePosition>)
    ensures
        bytes_in(ranges::coalesced_from(current, rest)) == current.length + 1384 * rest.len(),
    decreases rest.len(),
{
    let whole = ranges::coalesced_from(current, rest);
    reveal_with_fuel(bytes_in, 2);
    if rest.len() == 0 {
        assert(whole.drop_last() =~= seq![]);
        assert(whole.last() == current);
    } else {
        let next = ranges::chunk_range(rest.first());
        if current.joins(next) {
            lemma_coalesced_bytes(current.joined(next), rest.drop_first());
        } else {
            lemma_coalesced_bytes(next, rest.drop_first());
            let tail = ranges::coalesced_from(next, rest.drop_first());
            lemma_bytes_in_add(seq![current], tail);
            assert(seq![current].drop_last() =~= seq![]);
            assert(bytes_in(seq![current]) == current.length);
        }
    }
}

proof fn lemma_sends_bytes(
    session: SessionId,
    address: Address,
    wanted: Seq<ByteRange>,
    now: Timestamp,
    k: int,
)
    requires
        0 <= k <= requests::packets_for(wanted.len() as int),
    ensures
        bytes_asked(requests::retransmit_sends(session, address, wanted, now).take(k)) == bytes_in(
            wanted.take(
                if k * 230 <= wanted.len() {
                    k * 230
                } else {
                    wanted.len() as int
                },
            ),
        ),
    decreases k,
{
    let sends = requests::retransmit_sends(session, address, wanted, now);
    if k > 0 {
        lemma_sends_bytes(session, address, wanted, now, k - 1);
        let i = k - 1;
        let end = if i * 230 + 230 <= wanted.len() {
            i * 230 + 230
        } else {
            wanted.len() as int
        };
        let part = wanted.subrange(i * 230, end);
        assert(sends.take(k).drop_last() =~= sends.take(k - 1));
        assert(sends.take(k).last() == sends[k - 1]);
        lemma_bytes_in_add(wanted.take(i * 230), part);
        assert(wanted.take(i * 230) + part =~= wanted.take(end));
    } else {
        assert(sends.take(0) =~= seq![]);
        assert(wanted.take(0) =~= seq![]);
    }
}

/// The sum of the runs.
pub open spec fn sum_of_runs(runs: Seq<u32>) -> int
    decreases runs.len(),
{
    if runs.len() == 0 {
        0
    } else {
        sum_of_runs(runs.drop_last()) + runs.last()
    }
}

proof fn lemma_reserve_counts(
    pending: Map<u64, Timestamp>,
    buffer: WriteableView,
    positions: Seq<BytePosition>,
    now: Timestamp,
)
    requires
        positions.len() < u32::MAX,
    ensures
        ({
            let after = Reserve::begin(pending).steps(buffer, positions, now);
            &&& after.accepted.len() <= positions.len()
            &&& after.burst <= positions.len()
            &&& after.holes <= positions.len()
            &&& after.accepted.len() <= after.holes
            &&& sum_of_runs(after.bursts) + after.burst == after.accepted.len()
        }),
    decreases positions.len(),
{
    if positions.len() > 0 {
        lemma_reserve_counts(pending, buffer, positions.drop_last(), now);
        let before = Reserve::begin(pending).steps(buffer, positions.drop_last(), now);
        let after = before.step(buffer, positions.last(), now);
        if after.bursts != before.bursts {
            assert(after.bursts.drop_last() =~= before.bursts);
        }
    } else {
        assert(sum_of_runs(seq![]) == 0);
    }
}

/// Whether an action notes that chunks were asked for.
pub open spec fn notes_issued(action: ActionView, session: SessionId, count: int) -> bool {
    action matches ActionView::Observe(observation) && observation == (
    Observation::RetransmitIssued { session, count: count as u32 })
}

/// What is asked for is counted: the number that is noted is that of the chunks whose bytes are
/// asked for, no less and no more.
pub proof fn what_is_asked_for_is_counted(
    from: FromView,
    positions: Seq<BytePosition>,
    session: SessionId,
    address: Address,
    now: Timestamp,
) -> (count: int)
    requires
        positions.len() < u32::MAX,
    ensures
        ({
            let reserve = from.reserve(positions, now);
            let actions = reserve.observed(from.session_id) + requests::retransmit_sends(
                session,
                address,
                ranges::coalesced(reserve.accepted),
                now,
            );
            &&& bytes_asked(actions) == count * 1384
            &&& count > 0 ==> exists|i: int|
                0 <= i < actions.len() && notes_issued(#[trigger] actions[i], from.session_id, count)
            &&& count > 0 ==> exists|i: int|
                0 <= i < actions.len() && notes_holes(#[trigger] actions[i], from.session_id, count)
        }),
{
    let reserve = from.reserve(positions, now);
    let accepted = reserve.accepted;
    let wanted = ranges::coalesced(accepted);
    let sends = requests::retransmit_sends(session, address, wanted, now);
    let noted = reserve.observed(from.session_id);
    let actions = noted + sends;
    lemma_reserve_counts(
        streaming::fresh_pending(from.pending, now),
        from.buffer,
        positions,
        now,
    );
    if accepted.len() > 0 {
        lemma_coalesced_bytes(ranges::chunk_range(accepted.first()), accepted.drop_first());
        assert(noted[noted.len() - 1] == ActionView::Observe(
            Observation::RetransmitIssued {
                session: from.session_id,
                count: accepted.len() as u32,
            },
        ));
        assert(actions[noted.len() - 1] == noted[noted.len() - 1]);
        assert(notes_issued(actions[noted.len() - 1], from.session_id, accepted.len() as int));
        assert(actions[noted.len() - 2] == noted[noted.len() - 2]);
        assert(notes_holes(actions[noted.len() - 2], from.session_id, accepted.len() as int));
    }
    let n = requests::packets_for(wanted.len() as int);
    lemma_sends_bytes(session, address, wanted, now, n);
    assert(sends.take(n) =~= sends);
    assert(wanted.take(wanted.len() as int) =~= wanted);
    lemma_bytes_asked_add(noted, sends);
    lemma_notes_ask_nothing(noted);
    accepted.len() as int
}

/// Whether an action notes at least so many missing chunks.
pub open spec fn notes_holes(action: ActionView, session: SessionId, count: int) -> bool {
    action matches ActionView::Observe(Observation::HolesObserved { session: of, count: seen }) && of
        == session && seen >= count
}

proof fn lemma_notes_ask_nothing(actions: Seq<ActionView>)
    requires
        forall|i: int| 0 <= i < actions.len() ==> (#[trigger] actions[i]) is Observe,
    ensures
        bytes_asked(actions) == 0,
    decreases actions.len(),
{
    if actions.len() > 0 {
        let rest = actions.drop_last();
        assert forall|i: int| 0 <= i < rest.len() implies (#[trigger] rest[i]) is Observe by {
            assert(rest[i] == actions[i]);
        }
        assert(actions[actions.len() - 1] is Observe);
        lemma_notes_ask_nothing(rest);
    }
}

/// The runs of chunks that are noted as lost make up just those that are asked for.
pub proof fn noted_runs_make_up_what_is_asked_for(
    from: FromView,
    positions: Seq<BytePosition>,
    now: Timestamp,
)
    requires
        positions.len() < u32::MAX,
    ensures
        ({
            let reserve = from.reserve(positions, now);
            let noted = reserve.observed(from.session_id);
            &&& noted_runs(noted) == reserve.accepted.len()
        }),
{
    let reserve = from.reserve(positions, now);
    lemma_reserve_counts(
        streaming::fresh_pending(from.pending, now),
        from.buffer,
        positions,
        now,
    );
    let runs = if reserve.burst > 0 {
        reserve.bursts.push(reserve.burst)
    } else {
        reserve.bursts
    };
    if reserve.burst > 0 {
        assert(runs.drop_last() =~= reserve.bursts);
    }
    let views = streaming::burst_views(from.session_id, runs);
    lemma_noted_views(from.session_id, runs);
    let noted = reserve.observed(from.session_id);
    let holes: Seq<ActionView> = if reserve.holes > 0 {
        seq![
            ActionView::Observe(
                Observation::HolesObserved { session: from.session_id, count: reserve.holes },
            ),
        ]
    } else {
        seq![]
    };
    let issued: Seq<ActionView> = if 0 < reserve.accepted.len() <= u32::MAX {
        seq![
            ActionView::Observe(
                Observation::RetransmitIssued {
                    session: from.session_id,
                    count: reserve.accepted.len() as u32,
                },
            ),
        ]
    } else {
        seq![]
    };
    assert(noted =~= views + holes + issued);
    reveal_with_fuel(noted_runs, 2);
    lemma_noted_runs_add(views, holes);
    lemma_noted_runs_add(views + holes, issued);
    assert(holes.len() > 0 ==> holes.drop_last() =~= seq![]);
    assert(issued.len() > 0 ==> issued.drop_last() =~= seq![]);
}

/// The lengths of the runs that are noted, all together.
pub open spec fn noted_runs(actions: Seq<ActionView>) -> int
    decreases actions.len(),
{
    if actions.len() == 0 {
        0
    } else {
        noted_runs(actions.drop_last()) + match actions.last() {
            ActionView::Observe(Observation::LossBurst { session: _, length }) => length as int,
            _ => 0,
        }
    }
}

proof fn lemma_noted_runs_add(a: Seq<ActionView>, b: Seq<ActionView>)
    ensures
        noted_runs(a + b) == noted_runs(a) + noted_runs(b),
    decreases b.len(),
{
    if b.len() == 0 {
        assert(a + b =~= a);
    } else {
        lemma_noted_runs_add(a, b.drop_last());
        assert((a + b).drop_last() =~= a + b.drop_last());
        assert((a + b).last() == b.last());
    }
}

proof fn lemma_noted_views(session: SessionId, runs: Seq<u32>)
    ensures
        noted_runs(streaming::burst_views(session, runs)) == sum_of_runs(runs),
    decreases runs.len(),
{
    if runs.len() > 0 {
        lemma_noted_views(session, runs.drop_last());
        let views = streaming::burst_views(session, runs);
        assert(views.drop_last() =~= streaming::burst_views(session, runs.drop_last()));
        assert(views.last() == ActionView::Observe(
            Observation::LossBurst { session, length: runs.last() },
        ));
    }
}

} // verus!
