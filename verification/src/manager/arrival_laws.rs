//! What becomes of the bytes that arrive: where they are put, what the application is told,
//! and what the peer is told and asked.
use vstd::prelude::*;

use crate::api::types;
use crate::api::types::WriteableView;
use crate::manager::fields::{BatchID, PlaybackControlType, SessionId};
use crate::manager::identity::Address;
use crate::manager::request_laws;
use crate::manager::session_fec;
use crate::manager::session_fec::FecBatchWindow;
use crate::manager::stream_state;
use crate::manager::stream_state::{Outcome, RecoveredView, RecoveryStep};
use crate::manager::streaming::FromView;
use crate::manager::types::Timestamp;
use crate::manager::views;
use crate::manager::views::PacketView;
use crate::utils::data_collection::Observation;
use crate::utils::messages::{ActionView, StreamMessage};

verus! {

/// Whether `n` bytes at a position are those of a chunk that has still to arrive: a whole
/// chunk, or what is left of the stream in its last one.
pub open spec fn fits(buffer: WriteableView, at: int, n: int) -> bool {
    &&& 0 <= at <= buffer.data.len()
    &&& request_laws::lacks(buffer, at / 1384)
    &&& n == 1384 || at / 1384 == buffer.data.len() as int / 1384
    &&& at + n <= buffer.data.len()
}

/// Whether `after` is `before` with bytes put at a position, their chunk noted, and nothing
/// else changed but perhaps the head.
pub open spec fn wrote(
    before: WriteableView,
    after: WriteableView,
    at: int,
    bytes: Seq<u8>,
) -> bool {
    &&& after.data.len() == before.data.len()
    &&& after.filled.len() == before.filled.len()
    &&& forall|c: int|
        0 <= c < after.filled.len() ==> (#[trigger] after.filled[c] <==> before.filled[c] || c == at
            / 1384)
    &&& forall|b: int|
        0 <= b < after.data.len() ==> #[trigger] after.data[b] == if at <= b < at + bytes.len() {
            bytes[b - at]
        } else {
            before.data[b]
        }
}

/// Whether the head stands at the first gap at or past `start`, or at the end if there is
/// none.
pub open spec fn at_first_gap(buffer: WriteableView, start: int) -> bool {
    &&& start <= buffer.head <= buffer.data.len()
    &&& forall|c: int| start / 1384 <= c && c * 1384 < buffer.head ==> #[trigger] buffer.filled[c]
    &&& buffer.head < buffer.data.len() ==> buffer.head % 1384 == 0 && !buffer.filled[buffer.head
        / 1384]
}

/// Whether everything has arrived, or the head has reached the end and the application takes
/// the stream with its holes.
pub open spec fn complete(buffer: WriteableView, message: StreamMessage) -> bool {
    &&& buffer.head >= buffer.data.len()
    &&& message.complete == Some(true) || forall|c: int|
        0 <= c < buffer.filled.len() ==> #[trigger] buffer.filled[c]
}

/// Whether an action tells the peer at `address` that its stream has arrived.
pub open spec fn says_done(action: ActionView, session: SessionId, address: Address) -> bool {
    &&& action matches ActionView::Send { packet, addr }
    &&& addr == address
    &&& packet matches PacketView::PlaybackStatus(status)
    &&& status.control_type == PlaybackControlType::Done
    &&& status.session_id == session
}

/// Whether nothing is sent to anyone.
pub open spec fn sends_nothing(actions: Seq<ActionView>) -> bool {
    forall|i: int| 0 <= i < actions.len() ==> !((#[trigger] actions[i]) is Send)
}

proof fn lemma_gap(filled: Seq<bool>, i: int)
    requires
        0 <= i <= filled.len(),
    ensures
        i <= types::first_gap(filled, i) <= filled.len(),
        forall|c: int| i <= c < types::first_gap(filled, i) ==> #[trigger] filled[c],
        types::first_gap(filled, i) < filled.len() ==> !filled[types::first_gap(filled, i)],
    decreases filled.len() - i,
{
    if i < filled.len() && filled[i] {
        lemma_gap(filled, i + 1);
    }
}

/// Bytes that fit are put where they belong, their chunk counts as arrived, nothing else
/// changes, and the head moves to the first gap from where it was.
pub proof fn writing_fills_a_chunk(buffer: WriteableView, at: int, bytes: Seq<u8>)
    requires
        buffer.wf(),
        0 <= at,
    ensures
        buffer.accepts(at, bytes.len() as int) <==> fits(buffer, at, bytes.len() as int),
        fits(buffer, at, bytes.len() as int) ==> ({
            let after = buffer.written(at, bytes);
            &&& after.wf()
            &&& wrote(buffer, after, at, bytes)
            &&& at_first_gap(after, buffer.head)
        }),
{
    if buffer.accepts(at, bytes.len() as int) {
        crate::api::buffer_laws::write_keeps_wf(buffer, at, bytes);
        crate::api::buffer_laws::head_never_retreats(buffer, at, bytes);
        let after = buffer.written(at, bytes);
        let h = buffer.head / 1384;
        if h <= after.filled.len() {
            lemma_gap(after.filled, h);
        }
        let gap = types::first_gap(after.filled, h);
        assert forall|c: int| h <= c && c * 1384 < after.head implies #[trigger] after.filled[c] by {
            assert(c < gap);
        }
    }
}

/// Whether `after` is `before` with packets put in their places, their chunks noted, and
/// nothing else changed but perhaps the head.
pub open spec fn wrote_all(
    before: WriteableView,
    after: WriteableView,
    packets: Seq<RecoveredView>,
) -> bool {
    &&& after.data.len() == before.data.len()
    &&& after.filled.len() == before.filled.len()
    &&& forall|k: int|
        0 <= k < packets.len() ==> (#[trigger] packets[k]).at.0 / 1384 < after.filled.len()
            && packets[k].at.0 + packets[k].payload.len() <= after.data.len()
    &&& forall|k: int|
        0 <= k < packets.len() ==> after.filled[(#[trigger] packets[k]).at.0 as int / 1384]
    &&& forall|c: int|
        0 <= c < after.filled.len() && #[trigger] after.filled[c] ==> before.filled[c] || is_of_one(
            packets,
            c,
        )
    &&& forall|c: int|
        0 <= c < before.filled.len() && #[trigger] before.filled[c] ==> after.filled[c]
    &&& forall|b: int|
        0 <= b < after.data.len() && !is_in_one(packets, b) ==> #[trigger] after.data[b]
            == before.data[b]
}

/// Whether chunk `c` is that of one of the packets.
pub open spec fn is_of_one(packets: Seq<RecoveredView>, c: int) -> bool {
    exists|k: int| 0 <= k < packets.len() && (#[trigger] packets[k]).at.0 as int / 1384 == c
}

/// Whether byte `b` is in one of the packets.
pub open spec fn is_in_one(packets: Seq<RecoveredView>, b: int) -> bool {
    exists|k: int|
        0 <= k < packets.len() && (#[trigger] packets[k]).at.0 <= b < packets[k].at.0
            + packets[k].payload.len()
}

/// Whether every packet begins where a chunk does.
pub open spec fn at_chunks(packets: Seq<RecoveredView>) -> bool {
    forall|k: int| 0 <= k < packets.len() ==> (#[trigger] packets[k]).at.0 % 1384 == 0
}

/// Whether every packet is a whole chunk that is missing, no two of them the same.
pub open spec fn are_missing_chunks(buffer: WriteableView, packets: Seq<RecoveredView>) -> bool {
    &&& at_chunks(packets)
    &&& forall|k: int|
        0 <= k < packets.len() ==> fits(
            buffer,
            (#[trigger] packets[k]).at.0 as int,
            packets[k].payload.len() as int,
        )
    &&& forall|k: int, l: int|
        0 <= k < l < packets.len() ==> (#[trigger] packets[k]).at != (#[trigger] packets[l]).at
}

/// What came of writing packets, one after the other.
spec fn taken_in(begin: RecoveryStep, after: RecoveryStep, packets: Seq<RecoveredView>) -> bool {
    &&& wrote_all(begin.from.buffer, after.from.buffer, packets)
    &&& at_chunks(packets) ==> forall|k: int|
        0 <= k < packets.len() ==> after.from.buffer.data.subrange(
            (#[trigger] packets[k]).at.0 as int,
            packets[k].at.0 + packets[k].payload.len(),
        ) == packets[k].payload
    &&& at_chunks(packets) ==> forall|k: int|
        0 <= k < packets.len() ==> (#[trigger] packets[k]).payload.len() <= 1384
    &&& after.from.buffer.wf()
    &&& forall|k: int|
        0 <= k < packets.len() ==> !after.from.pending.dom().contains(
            ((#[trigger] packets[k]).at.0 / 1384) as u64,
        )
    &&& forall|c: u64| #[trigger]
        after.from.pending.dom().contains(c) <==> begin.from.pending.dom().contains(c)
            && !is_of_one(packets, c as int)
    &&& forall|c: u64| #[trigger]
        after.from.pending.dom().contains(c) ==> after.from.pending[c] == begin.from.pending[c]
    &&& after.from.session_id == begin.from.session_id
    &&& after.from.max_seq == begin.from.max_seq
    &&& after.from.fec_config == begin.from.fec_config
    &&& packets.len() > 0 ==> after.message.head as int == after.from.buffer.head
        && after.actions.len() > 0 && after.actions.last() == (ActionView::Publish {
        session: after.from.session_id,
        message: after.message,
    })
    &&& packets.len() == 0 ==> after == begin
    &&& after.message == (StreamMessage { head: after.message.head, ..begin.message })
    &&& begin.from.buffer.head <= after.from.buffer.head
}

#[verifier::rlimit(40)]
proof fn lemma_one_more(
    begin: RecoveryStep,
    before: RecoveryStep,
    packets: Seq<RecoveredView>,
    now: Timestamp,
)
    requires
        packets.len() > 0,
        begin.fits,
        before.fits,
        taken_in(begin, before, packets.drop_last()),
        before.step(packets.last(), now).fits,
    ensures
        taken_in(begin, before.step(packets.last(), now), packets),
{
    let rest = packets.drop_last();
    let last = packets.last();
    let after = before.step(last, now);
    let at = last.at.0 as int;
    let b0 = begin.from.buffer;
    let b1 = before.from.buffer;
    let b2 = after.from.buffer;
    writing_fills_a_chunk(b1, at, last.payload);
    assert(packets[packets.len() - 1] == last);
    assert forall|k: int| 0 <= k < rest.len() implies #[trigger] rest[k] == packets[k] by {}
    assert forall|k: int| 0 <= k < packets.len() implies (#[trigger] packets[k]).at.0 / 1384
        < b2.filled.len() && packets[k].at.0 + packets[k].payload.len() <= b2.data.len()
        && b2.filled[packets[k].at.0 as int / 1384] by {
        if k < rest.len() {
            assert(rest[k] == packets[k]);
        }
    }
    assert forall|c: int| 0 <= c < b2.filled.len() && #[trigger] b2.filled[c] implies b0.filled[c]
        || is_of_one(packets, c) by {
        if c == at / 1384 {
            assert(packets[packets.len() - 1].at.0 as int / 1384 == c);
        } else if !b0.filled[c] {
            assert(b1.filled[c]);
            let k = choose|k: int|
                0 <= k < rest.len() && (#[trigger] rest[k]).at.0 as int / 1384 == c;
            assert(packets[k].at.0 as int / 1384 == c);
        }
    }
    assert forall|b: int| 0 <= b < b2.data.len() && !is_in_one(packets, b) implies #[trigger]
        b2.data[b] == b0.data[b] by {
        assert(!(packets[packets.len() - 1].at.0 <= b < at + last.payload.len()));
        if is_in_one(rest, b) {
            let k = choose|k: int|
                0 <= k < rest.len() && (#[trigger] rest[k]).at.0 <= b < rest[k].at.0
                    + rest[k].payload.len();
            assert(packets[k].at.0 <= b < packets[k].at.0 + packets[k].payload.len());
        }
        assert(b1.data[b] == b0.data[b]);
    }
    if at_chunks(packets) {
        assert(at % 1384 == 0);
        assert(at_chunks(rest));
        assert(last.payload.len() <= 1384);
        assert forall|k: int| 0 <= k < packets.len() implies (#[trigger] packets[k]).payload.len()
            <= 1384 by {
            if k < rest.len() {
                assert(rest[k] == packets[k]);
            }
        }
        assert forall|k: int| 0 <= k < packets.len() implies b2.data.subrange(
            (#[trigger] packets[k]).at.0 as int,
            packets[k].at.0 + packets[k].payload.len(),
        ) == packets[k].payload by {
            if k < rest.len() {
                assert(rest[k] == packets[k]);
                let p = rest[k];
                let s = p.at.0 as int;
                assert(b1.data.subrange(s, s + p.payload.len()) == p.payload);
                assert(b1.filled[s / 1384]);
                assert(s / 1384 != at / 1384);
                assert(s % 1384 == 0);
                assert(s + 1384 <= at || at + 1384 <= s);
                assert(p.payload.len() <= 1384);
                assert forall|b: int| s <= b < s + p.payload.len() implies b2.data[b] == p.payload[b
                    - s] by {
                    assert(b1.data.subrange(s, s + p.payload.len())[b - s] == b1.data[b]);
                }
                assert(b2.data.subrange(s, s + p.payload.len()) =~= p.payload);
            } else {
                assert(b2.data.subrange(at, at + last.payload.len()) =~= last.payload);
            }
        }
    }
    let idx = (last.at.0 / 1384) as u64;
    assert forall|c: u64| #[trigger] after.from.pending.dom().contains(c) <==> (
    begin.from.pending.dom().contains(c) && !is_of_one(packets, c as int)) by {
        assert(before.from.pending.dom().contains(c) <==> begin.from.pending.dom().contains(c)
            && !is_of_one(rest, c as int));
        if is_of_one(packets, c as int) {
            let k = choose|k: int|
                0 <= k < packets.len() && (#[trigger] packets[k]).at.0 as int / 1384 == c as int;
            if k < rest.len() {
                assert(rest[k].at.0 as int / 1384 == c as int);
            }
        }
        if is_of_one(rest, c as int) {
            let k = choose|k: int|
                0 <= k < rest.len() && (#[trigger] rest[k]).at.0 as int / 1384 == c as int;
            assert(packets[k].at.0 as int / 1384 == c as int);
        }
        if c == idx {
            assert(packets[packets.len() - 1].at.0 as int / 1384 == c as int);
        }
    }
    assert forall|k: int| 0 <= k < packets.len() implies !after.from.pending.dom().contains(
        ((#[trigger] packets[k]).at.0 / 1384) as u64,
    ) by {
        assert(is_of_one(packets, packets[k].at.0 as int / 1384));
    }
}

proof fn lemma_taken_in(begin: RecoveryStep, packets: Seq<RecoveredView>, now: Timestamp)
    requires
        begin.fits,
        begin.from.buffer.wf(),
    ensures
        begin.steps(packets, now).fits ==> taken_in(begin, begin.steps(packets, now), packets),
    decreases packets.len(),
{
    if packets.len() > 0 {
        lemma_taken_in(begin, packets.drop_last(), now);
        let before = begin.steps(packets.drop_last(), now);
        if before.step(packets.last(), now).fits {
            lemma_one_more(begin, before, packets, now);
        }
    }
}

proof fn lemma_all_fit(begin: RecoveryStep, packets: Seq<RecoveredView>, now: Timestamp)
    requires
        begin.fits,
        begin.from.buffer.wf(),
        are_missing_chunks(begin.from.buffer, packets),
    ensures
        begin.steps(packets, now).fits,
    decreases packets.len(),
{
    if packets.len() > 0 {
        let rest = packets.drop_last();
        let last = packets.last();
        assert forall|k: int| 0 <= k < rest.len() implies #[trigger] rest[k] == packets[k] by {}
        assert(packets[packets.len() - 1] == last);
        assert(at_chunks(rest));
        assert(are_missing_chunks(begin.from.buffer, rest));
        lemma_all_fit(begin, rest, now);
        lemma_taken_in(begin, rest, now);
        let before = begin.steps(rest, now);
        let at = last.at.0 as int;
        writing_fills_a_chunk(before.from.buffer, at, last.payload);
        if before.from.buffer.filled[at / 1384] {
            let k = choose|k: int|
                0 <= k < rest.len() && (#[trigger] rest[k]).at.0 as int / 1384 == at / 1384;
            assert(packets[k].at != packets[packets.len() - 1].at);
            assert(packets[k].at.0 % 1384 == 0);
            assert(false);
        }
    }
}

proof fn lemma_begin_actions(begin: RecoveryStep, packets: Seq<RecoveredView>, now: Timestamp)
    ensures
        begin.steps(packets, now).actions.len() >= begin.actions.len(),
        begin.steps(packets, now).actions.take(begin.actions.len() as int) == begin.actions,
        sends_nothing(begin.actions) ==> sends_nothing(begin.steps(packets, now).actions),
    decreases packets.len(),
{
    if packets.len() > 0 {
        lemma_begin_actions(begin, packets.drop_last(), now);
        let before = begin.steps(packets.drop_last(), now);
        let after = begin.steps(packets, now);
        assert(after.actions.take(begin.actions.len() as int) =~= before.actions.take(
            begin.actions.len() as int,
        ));
    } else {
        assert(begin.actions.take(begin.actions.len() as int) =~= begin.actions);
    }
}

/// Packets that were recovered are all put in their places: unless one of them does not fit,
/// each one's chunk counts as arrived and holds its payload, and no other chunk or byte is
/// touched. They all fit if they are missing chunks. What arrived is waited for no more, the
/// application learns where the head is, and a stream that is complete by that is handed to
/// it and the peer told so.
pub proof fn every_recovered_packet_is_put_in_place(
    from: FromView,
    message: StreamMessage,
    fec: Map<u64, FecBatchWindow>,
    batch_id: BatchID,
    packets: Seq<RecoveredView>,
    session: SessionId,
    address: Address,
    now: Timestamp,
)
    requires
        from.buffer.wf(),
    ensures
        are_missing_chunks(from.buffer, packets) ==> stream_state::recovered_step(
            from,
            message,
            fec,
            batch_id,
            packets,
            session,
            address,
            now,
        ).outcome != Outcome::Refused,
        ({
            let step = stream_state::recovered_step(
                from,
                message,
                fec,
                batch_id,
                packets,
                session,
                address,
                now,
            );
            let after = step.stream.streaming->From_0;
            &&& step.stream.streaming is From
            &&& !step.stream.fec.dom().contains(batch_id.0 as u64)
            &&& step.outcome != Outcome::Refused ==> {
                &&& wrote_all(from.buffer, after.buffer, packets)
                &&& at_chunks(packets) ==> forall|k: int|
                    0 <= k < packets.len() ==> after.buffer.data.subrange(
                        (#[trigger] packets[k]).at.0 as int,
                        packets[k].at.0 + packets[k].payload.len(),
                    ) == packets[k].payload
                &&& after.buffer.wf()
                &&& from.buffer.head <= after.buffer.head
                &&& packets.len() > 0 ==> step.stream.message.head as int == after.buffer.head
                &&& step.stream.message.approved == Some(true)
                &&& step.stream.message.paused == message.paused
                &&& step.stream.message.complete == message.complete
                &&& step.stream.message.buffer_closed == message.buffer_closed
                &&& step.outcome == Outcome::Done <==> complete(after.buffer, message)
                &&& step.outcome == Outcome::Done ==> step.stream.message.closed
                    && step.actions.len() >= 3 && says_done(
                    step.actions[step.actions.len() - 3],
                    session,
                    address,
                ) && step.actions[step.actions.len() - 2] == (ActionView::Received {
                    session: from.session_id,
                    data: after.buffer.data,
                }) && step.actions.last() == (ActionView::Publish {
                    session: from.session_id,
                    message: step.stream.message,
                })
                &&& step.outcome == Outcome::GoesOn ==> step.actions.contains(
                    ActionView::Publish {
                        session: from.session_id,
                        message: step.stream.message,
                    },
                ) && step.stream.message.closed == message.closed
            }
            &&& 0 < packets.len() <= u32::MAX ==> step.actions.contains(
                ActionView::Observe(
                    Observation::PacketsRecovered { session, count: packets.len() as u32 },
                ),
            )
            &&& fec.dom().contains(batch_id.0 as u64) ==> step.actions.contains(
                ActionView::Observe(
                    Observation::BatchRecovered {
                        session,
                        latency_ms: now.since(fec[batch_id.0 as u64].created_at),
                    },
                ),
            )
        }),
{
    let message1 = StreamMessage { approved: Some(true), ..message };
    let seen = stream_state::recovery_observed(session, fec, batch_id, packets.len() as int, now);
    let first = ActionView::Publish { session: from.session_id, message: message1 };
    let begin = RecoveryStep { from, message: message1, actions: seen + seq![first], fits: true };
    let all = begin.steps(packets, now);
    lemma_taken_in(begin, packets, now);
    lemma_begin_actions(begin, packets, now);
    if are_missing_chunks(from.buffer, packets) {
        lemma_all_fit(begin, packets, now);
    }
    let step = stream_state::recovered_step(
        from,
        message,
        fec,
        batch_id,
        packets,
        session,
        address,
        now,
    );
    let n = begin.actions.len() as int;
    assert(step.actions.take(n) =~= all.actions.take(n));
    assert forall|i: int| 0 <= i < n implies #[trigger] step.actions[i] == begin.actions[i] by {
        assert(step.actions[i] == step.actions.take(n)[i]);
    }
    assert(begin.actions[n - 1] == first);
    if 0 < packets.len() <= u32::MAX {
        assert(begin.actions[0] == ActionView::Observe(
            Observation::PacketsRecovered { session, count: packets.len() as u32 },
        ));
        assert(step.actions[0] == begin.actions[0]);
    }
    if fec.dom().contains(batch_id.0 as u64) {
        assert(step.actions[n - 2] == begin.actions[n - 2]);
        assert(begin.actions[n - 2] == seen[seen.len() - 1]);
    }
    if step.outcome == Outcome::GoesOn {
        if packets.len() > 0 {
            assert(step.actions[all.actions.len() - 1] == all.actions.last());
        } else {
            assert(step.actions[n - 1] == first);
        }
    }
}

/// Whether an action asks someone for bytes.
pub open spec fn is_request(action: ActionView) -> bool {
    action matches ActionView::Send { packet, addr: _ } && packet is Retransmit
}

proof fn lemma_expected_again(fec: Map<u64, FecBatchWindow>, now: Timestamp, b: int)
    ensures
        request_laws::expected(session_fec::live(fec, now), now, b) <==> request_laws::expected(
            fec,
            now,
            b,
        ),
{
    let live = session_fec::live(fec, now);
    if request_laws::expected(fec, now, b) {
        let k = choose|k: u64| #[trigger]
            fec.dom().contains(k) && now.0 - fec[k].created_at.0 <= 500 && request_laws::brings(
                fec[k],
                b,
            );
        assert(live.dom().contains(k) && live[k] == fec[k]);
    }
    if request_laws::expected(live, now, b) {
        let k = choose|k: u64| #[trigger]
            live.dom().contains(k) && now.0 - live[k].created_at.0 <= 500 && request_laws::brings(
                live[k],
                b,
            );
        assert(fec.dom().contains(k) && live[k] == fec[k]);
    }
}

proof fn lemma_not_asked(
    actions: Seq<ActionView>,
    session: SessionId,
    address: Address,
    b: int,
)
    requires
        forall|i: int| 0 <= i < actions.len() ==> !is_request(#[trigger] actions[i]),
    ensures
        !request_laws::asked(actions, session, address, b),
{
    if request_laws::asked(actions, session, address, b) {
        let i = choose|i: int|
            0 <= i < actions.len() && request_laws::asks(
                #[trigger] actions[i],
                session,
                address,
                b,
            );
        assert(!is_request(actions[i]));
    }
}

/// A data packet that fits is put in its place, its chunk counts as arrived and is waited for
/// no more, and no other chunk or byte is touched; one that does not fit changes neither the
/// bytes nor what the application is told. The application learns where the head is, and the
/// peer is told once the stream is complete, and only then.
pub proof fn every_data_packet_is_put_in_place(
    from: FromView,
    message: StreamMessage,
    fec: Map<u64, FecBatchWindow>,
    packet: views::DataView,
    address: Address,
    now: Timestamp,
)
    requires
        from.buffer.wf(),
    ensures
        ({
            let at = packet.byte_range_start.0 as int;
            let n = packet.payload.len() as int;
            let step = stream_state::data_step(from, message, fec, packet, address, now);
            let after = step.stream.streaming->From_0;
            &&& step.stream.streaming is From
            &&& after.session_id == from.session_id
            &&& after.fec_config == from.fec_config
            &&& step.outcome == Outcome::Refused <==> !fits(from.buffer, at, n)
            &&& step.outcome == Outcome::Refused ==> after.buffer == from.buffer && after.pending
                == from.pending && step.stream.message == message && sends_nothing(step.actions)
            &&& step.outcome != Outcome::Refused ==> {
                &&& wrote(from.buffer, after.buffer, at, packet.payload)
                &&& after.buffer.wf()
                &&& at_first_gap(after.buffer, from.buffer.head)
                &&& step.stream.message.head as int == after.buffer.head
                &&& step.stream.message.approved == Some(true)
                &&& step.stream.message.paused == message.paused
                &&& step.stream.message.closed == message.closed
                &&& step.stream.message.complete == message.complete
                &&& step.stream.message.buffer_closed == message.buffer_closed
                &&& step.actions.contains(
                    ActionView::Publish {
                        session: from.session_id,
                        message: step.stream.message,
                    },
                )
                &&& step.actions.contains(
                    ActionView::Observe(
                        Observation::BufferState {
                            session: packet.session_id,
                            head: after.buffer.head as u64,
                            len: after.buffer.data.len() as u64,
                        },
                    ),
                )
                &&& from.pending.dom().contains((at / 1384) as u64) ==> step.actions.contains(
                    ActionView::Observe(
                        Observation::RetransmitRtt {
                            session: from.session_id,
                            rtt_ms: now.since(from.pending[(at / 1384) as u64]),
                        },
                    ),
                )
                &&& step.outcome == Outcome::Done <==> complete(after.buffer, message)
                &&& step.outcome == Outcome::Done <==> step.actions.len() > 0 && says_done(
                    step.actions.last(),
                    packet.session_id,
                    address,
                )
            }
            &&& from.max_seq is None ==> after.max_seq == Some(
                (packet.batch_id.0 * 256 + packet.fec_info.batch_pos) as u32,
            )
            &&& from.max_seq matches Some(latest) ==> {
                let number = packet.batch_id.0 * 256 + packet.fec_info.batch_pos;
                &&& latest > number ==> after.max_seq == Some(latest) && step.actions.contains(
                    ActionView::Observe(
                        Observation::ReorderDistance {
                            session: from.session_id,
                            distance: (latest - number) as u32,
                        },
                    ),
                )
                &&& latest <= number ==> after.max_seq == Some(number as u32)
            }
        }),
{
    let at = packet.byte_range_start.0 as int;
    let c = (at / 1384) as u64;
    let number = crate::manager::streaming::seq_number(
        packet.batch_id,
        packet.fec_info.batch_pos,
    );
    assert(number == packet.batch_id.0 * 256 + packet.fec_info.batch_pos);
    let taken = stream_state::intake(from, message, fec, packet, now);
    let step = stream_state::data_step(from, message, fec, packet, address, now);
    writing_fills_a_chunk(from.buffer, at, packet.payload);
    let seen = from.arrival_observed(number);
    assert forall|i: int| 0 <= i < taken.actions.len() implies #[trigger] step.actions[i]
        == taken.actions[i] by {}
    if from.max_seq matches Some(m) && m > number {
        assert(taken.actions[0] == seen[0]);
        assert(step.actions[0] == seen[0]);
    }
    if taken.fits {
        let from2 = FromView {
            buffer: from.buffer.written(at, packet.payload),
            ..from.arrived(number)
        };
        let cleared = from2.clear_observed(packet.byte_range_start, now);
        let k = seen.len() as int + cleared.len() as int;
        assert(step.actions[k] == taken.actions[k]);
        assert(step.actions[k + 1] == taken.actions[k + 1]);
        if from.pending.dom().contains(c) {
            assert(taken.actions[seen.len() as int] == cleared[0]);
            assert(step.actions[seen.len() as int] == cleared[0]);
        }
        if step.outcome == Outcome::GoesOn {
            lemma_goes_on_last(from, message, fec, packet, address, now);
        }
    }
}

proof fn lemma_goes_on_last(
    from: FromView,
    message: StreamMessage,
    fec: Map<u64, FecBatchWindow>,
    packet: views::DataView,
    address: Address,
    now: Timestamp,
)
    ensures
        ({
            let step = stream_state::data_step(from, message, fec, packet, address, now);
            step.outcome == Outcome::GoesOn ==> !says_done(
                step.actions.last(),
                packet.session_id,
                address,
            )
        }),
{
    let step = stream_state::data_step(from, message, fec, packet, address, now);
    let taken = stream_state::intake(from, message, fec, packet, now);
    if step.outcome == Outcome::GoesOn {
        let from1 = taken.stream.streaming->From_0;
        let settled = packet.fec_info.batch_pos + 1 == packet.fec_info.batch_size;
        let more = stream_state::request_step(
            from1,
            taken.stream.message,
            taken.stream.fec,
            settled,
            packet.session_id,
            address,
            now,
        );
        if more.actions.len() > 0 {
            assert(step.actions.last() == more.actions.last());
        } else {
            assert(step.actions =~= taken.actions);
        }
    }
}

/// After a data packet that leaves the head at the end, every chunk that is still missing is
/// asked for, unless a batch under way will bring it or it was asked for within the last half
/// second. In the middle of a stream nothing is asked for before a batch has ended.
pub proof fn arrivals_make_the_receiver_ask(
    from: FromView,
    message: StreamMessage,
    fec: Map<u64, FecBatchWindow>,
    packet: views::DataView,
    address: Address,
    now: Timestamp,
    c: int,
    b: int,
)
    requires
        from.buffer.wf(),
        0 <= c < from.buffer.filled.len(),
        c * 1384 <= b < c * 1384 + 1384,
    ensures
        ({
            let at = packet.byte_range_start.0 as int;
            let step = stream_state::data_step(from, message, fec, packet, address, now);
            let after = step.stream.streaming->From_0;
            let wanted = request_laws::lacks(after.buffer, c) && !request_laws::expected(
                step.stream.fec,
                now,
                c * 1384,
            );
            &&& step.outcome != Outcome::GoesOn ==> !request_laws::asked(
                step.actions,
                packet.session_id,
                address,
                b,
            )
            &&& step.outcome == Outcome::GoesOn && after.buffer.head >= after.buffer.data.len()
                ==> (request_laws::asked(step.actions, packet.session_id, address, b) <==> wanted
                && !request_laws::awaited(from.pending, now, c)) && (request_laws::awaited(
                after.pending,
                now,
                c,
            ) <==> (request_laws::awaited(from.pending, now, c) && c != at / 1384) || wanted)
            &&& step.outcome == Outcome::GoesOn && after.buffer.head < after.buffer.data.len()
                && packet.fec_info.batch_pos + 1 != packet.fec_info.batch_size
                ==> !request_laws::asked(step.actions, packet.session_id, address, b)
        }),
{
    let at = packet.byte_range_start.0 as int;
    let taken = stream_state::intake(from, message, fec, packet, now);
    let step = stream_state::data_step(from, message, fec, packet, address, now);
    let from1 = taken.stream.streaming->From_0;
    writing_fills_a_chunk(from.buffer, at, packet.payload);
    lemma_not_asked(taken.actions, packet.session_id, address, b);
    if step.outcome == Outcome::Done {
        assert forall|i: int| 0 <= i < step.actions.len() implies !is_request(
            #[trigger] step.actions[i],
        ) by {
            if i < taken.actions.len() {
                assert(step.actions[i] == taken.actions[i]);
            }
        }
        lemma_not_asked(step.actions, packet.session_id, address, b);
    }
    if step.outcome == Outcome::GoesOn {
        let settled = packet.fec_info.batch_pos + 1 == packet.fec_info.batch_size;
        let more = stream_state::request_step(
            from1,
            taken.stream.message,
            taken.stream.fec,
            settled,
            packet.session_id,
            address,
            now,
        );
        request_laws::lemma_asked_add(
            taken.actions,
            more.actions,
            packet.session_id,
            address,
            b,
        );
        lemma_expected_again(taken.stream.fec, now, c * 1384);
        if from1.buffer.at_end() {
            request_laws::every_missing_chunk_is_asked_for(
                from1,
                taken.stream.message,
                taken.stream.fec,
                settled,
                packet.session_id,
                address,
                now,
                c,
                b,
            );
            assert(request_laws::awaited(from1.pending, now, c) <==> request_laws::awaited(
                from.pending,
                now,
                c,
            ) && c != at / 1384);
            if c == at / 1384 {
                assert(from1.buffer.filled[c]);
            }
        } else if !settled {
            lemma_not_asked(more.actions, packet.session_id, address, b);
        }
    }
}

/// The packet that ends a batch in the middle of a stream makes the receiver ask for every
/// chunk of the two holes most worth it, but for those that a batch under way will bring or
/// that were asked for within the last half second, and for nothing else.
pub proof fn the_end_of_a_batch_makes_the_receiver_ask(
    from: FromView,
    message: StreamMessage,
    fec: Map<u64, FecBatchWindow>,
    packet: views::DataView,
    address: Address,
    now: Timestamp,
    c: int,
    b: int,
) -> (picked: Seq<types::Area>)
    requires
        from.buffer.wf(),
        0 <= c < from.buffer.filled.len(),
        c * 1384 <= b < c * 1384 + 1384,
        packet.fec_info.batch_pos + 1 == packet.fec_info.batch_size,
        stream_state::data_step(from, message, fec, packet, address, now).outcome
            == Outcome::GoesOn,
        ({
            let after = stream_state::data_step(
                from,
                message,
                fec,
                packet,
                address,
                now,
            ).stream.streaming->From_0;
            after.buffer.head < after.buffer.data.len()
        }),
    ensures
        ({
            let step = stream_state::data_step(from, message, fec, packet, address, now);
            let after = step.stream.streaming->From_0;
            &&& request_laws::are_best(picked, after.buffer.filled, after.buffer.head / 1384)
            &&& request_laws::asked(step.actions, packet.session_id, address, b)
                <==> request_laws::chunk_in(picked, c) && !request_laws::expected(
                step.stream.fec,
                now,
                c * 1384,
            ) && !request_laws::awaited(from.pending, now, c)
        }),
{
    let at = packet.byte_range_start.0 as int;
    let taken = stream_state::intake(from, message, fec, packet, now);
    let step = stream_state::data_step(from, message, fec, packet, address, now);
    let from1 = taken.stream.streaming->From_0;
    writing_fills_a_chunk(from.buffer, at, packet.payload);
    lemma_not_asked(taken.actions, packet.session_id, address, b);
    let more = stream_state::request_step(
        from1,
        taken.stream.message,
        taken.stream.fec,
        true,
        packet.session_id,
        address,
        now,
    );
    request_laws::lemma_asked_add(taken.actions, more.actions, packet.session_id, address, b);
    lemma_expected_again(taken.stream.fec, now, c * 1384);
    assert(from1.buffer.head < from1.buffer.data.len());
    let picked = request_laws::every_chunk_of_the_best_holes_is_asked_for(
        from1,
        taken.stream.message,
        taken.stream.fec,
        packet.session_id,
        address,
        now,
    );
    assert(request_laws::asked(more.actions, packet.session_id, address, b)
        <==> request_laws::chunk_in(picked, c) && !request_laws::expected(
        taken.stream.fec,
        now,
        c * 1384,
    ) && !request_laws::awaited(from1.pending, now, c));
    if c == at / 1384 && request_laws::chunk_in(picked, c) {
        let k = choose|k: int|
            0 <= k < picked.len() && (#[trigger] picked[k]).start <= c < picked[k].end;
        assert(request_laws::is_hole(from1.buffer.filled, picked[k]));
        assert(!from1.buffer.filled[c]);
        assert(false);
    }
    picked
}

/// After a recovered batch that leaves the head at the end, every chunk that is still missing
/// is asked for, unless a batch under way will bring it or it was asked for within the last
/// half second.
pub proof fn recoveries_make_the_receiver_ask(
    from: FromView,
    message: StreamMessage,
    fec: Map<u64, FecBatchWindow>,
    batch_id: BatchID,
    packets: Seq<RecoveredView>,
    session: SessionId,
    address: Address,
    now: Timestamp,
    c: int,
    b: int,
)
    requires
        from.buffer.wf(),
        0 <= c < from.buffer.filled.len(),
        c * 1384 <= b < c * 1384 + 1384,
    ensures
        ({
            let step = stream_state::recovered_step(
                from,
                message,
                fec,
                batch_id,
                packets,
                session,
                address,
                now,
            );
            let after = step.stream.streaming->From_0;
            let wanted = request_laws::lacks(after.buffer, c) && !request_laws::expected(
                step.stream.fec,
                now,
                c * 1384,
            );
            step.outcome == Outcome::GoesOn && after.buffer.head >= after.buffer.data.len() ==> (
            request_laws::asked(step.actions, session, address, b) <==> wanted
                && !request_laws::awaited(from.pending, now, c))
        }),
{
    let message1 = StreamMessage { approved: Some(true), ..message };
    let seen = stream_state::recovery_observed(session, fec, batch_id, packets.len() as int, now);
    let first = ActionView::Publish { session: from.session_id, message: message1 };
    let begin = RecoveryStep { from, message: message1, actions: seen + seq![first], fits: true };
    let all = begin.steps(packets, now);
    let fec1 = fec.remove(batch_id.0 as u64);
    lemma_taken_in(begin, packets, now);
    lemma_begin_actions(begin, packets, now);
    let step = stream_state::recovered_step(
        from,
        message,
        fec,
        batch_id,
        packets,
        session,
        address,
        now,
    );
    if step.outcome == Outcome::GoesOn {
        let more = stream_state::request_step(
            all.from,
            all.message,
            fec1,
            true,
            session,
            address,
            now,
        );
        assert(sends_nothing(begin.actions));
        assert forall|i: int| 0 <= i < all.actions.len() implies !is_request(
            #[trigger] all.actions[i],
        ) by {}
        lemma_not_asked(all.actions, session, address, b);
        request_laws::lemma_asked_add(all.actions, more.actions, session, address, b);
        lemma_expected_again(fec1, now, c * 1384);
        if all.from.buffer.at_end() {
            request_laws::every_missing_chunk_is_asked_for(
                all.from,
                all.message,
                fec1,
                true,
                session,
                address,
                now,
                c,
                b,
            );
            if request_laws::lacks(all.from.buffer, c) && is_of_one(packets, c) {
                let k = choose|k: int|
                    0 <= k < packets.len() && (#[trigger] packets[k]).at.0 as int / 1384 == c;
                assert(all.from.buffer.filled[packets[k].at.0 as int / 1384]);
            }
            assert(c as u64 as int == c);
            assert(all.from.pending.dom().contains(c as u64) <==> from.pending.dom().contains(
                c as u64,
            ) && !is_of_one(packets, c));
            assert(request_laws::lacks(all.from.buffer, c) ==> (request_laws::awaited(
                all.from.pending,
                now,
                c,
            ) <==> request_laws::awaited(from.pending, now, c)));
        }
    }
}

proof fn lemma_keeps(begin: RecoveryStep, packets: Seq<RecoveredView>, now: Timestamp)
    requires
        begin.from.buffer.wf(),
    ensures
        ({
            let before = begin.from.buffer;
            let after = begin.steps(packets, now).from.buffer;
            &&& after.wf()
            &&& after.data.len() == before.data.len()
            &&& after.filled.len() == before.filled.len()
            &&& forall|c: int|
                0 <= c < before.filled.len() && #[trigger] before.filled[c] ==> after.filled[c]
        }),
    decreases packets.len(),
{
    if packets.len() > 0 {
        lemma_keeps(begin, packets.drop_last(), now);
        let before = begin.steps(packets.drop_last(), now);
        let last = packets.last();
        writing_fills_a_chunk(before.from.buffer, last.at.0 as int, last.payload);
    }
}

/// Recovered packets never undo what has arrived, even if one of them does not fit.
pub proof fn recovery_keeps_what_arrived(
    from: FromView,
    message: StreamMessage,
    fec: Map<u64, FecBatchWindow>,
    batch_id: BatchID,
    packets: Seq<RecoveredView>,
    session: SessionId,
    address: Address,
    now: Timestamp,
)
    requires
        from.buffer.wf(),
    ensures
        ({
            let step = stream_state::recovered_step(
                from,
                message,
                fec,
                batch_id,
                packets,
                session,
                address,
                now,
            );
            let after = step.stream.streaming->From_0.buffer;
            &&& step.stream.streaming is From
            &&& after.wf()
            &&& after.data.len() == from.buffer.data.len()
            &&& after.filled.len() == from.buffer.filled.len()
            &&& forall|c: int|
                0 <= c < from.buffer.filled.len() && #[trigger] from.buffer.filled[c]
                    ==> after.filled[c]
        }),
{
    let message1 = StreamMessage { approved: Some(true), ..message };
    let seen = stream_state::recovery_observed(session, fec, batch_id, packets.len() as int, now);
    let first = ActionView::Publish { session: from.session_id, message: message1 };
    let begin = RecoveryStep { from, message: message1, actions: seen + seq![first], fits: true };
    lemma_keeps(begin, packets, now);
}

/// A recovered batch in the middle of a stream makes the receiver ask for every chunk of the two
/// holes most worth it, but for those that a batch under way will bring or that were asked for
/// within the last half second, and for nothing else.
pub proof fn recoveries_in_the_middle_make_the_receiver_ask(
    from: FromView,
    message: StreamMessage,
    fec: Map<u64, FecBatchWindow>,
    batch_id: BatchID,
    packets: Seq<RecoveredView>,
    session: SessionId,
    address: Address,
    now: Timestamp,
    c: int,
    b: int,
) -> (picked: Seq<types::Area>)
    requires
        from.buffer.wf(),
        0 <= c < from.buffer.filled.len(),
        c * 1384 <= b < c * 1384 + 1384,
        ({
            let step = stream_state::recovered_step(
                from,
                message,
                fec,
                batch_id,
                packets,
                session,
                address,
                now,
            );
            let after = step.stream.streaming->From_0;
            step.outcome == Outcome::GoesOn && after.buffer.head < after.buffer.data.len()
        }),
    ensures
        ({
            let step = stream_state::recovered_step(
                from,
                message,
                fec,
                batch_id,
                packets,
                session,
                address,
                now,
            );
            let after = step.stream.streaming->From_0;
            &&& request_laws::are_best(picked, after.buffer.filled, after.buffer.head / 1384)
            &&& request_laws::asked(step.actions, session, address, b) <==> request_laws::chunk_in(
                picked,
                c,
            ) && !request_laws::expected(step.stream.fec, now, c * 1384)
                && !request_laws::awaited(from.pending, now, c)
        }),
{
    let message1 = StreamMessage { approved: Some(true), ..message };
    let seen = stream_state::recovery_observed(session, fec, batch_id, packets.len() as int, now);
    let first = ActionView::Publish { session: from.session_id, message: message1 };
    let begin = RecoveryStep { from, message: message1, actions: seen + seq![first], fits: true };
    let all = begin.steps(packets, now);
    let fec1 = fec.remove(batch_id.0 as u64);
    lemma_taken_in(begin, packets, now);
    lemma_begin_actions(begin, packets, now);
    let more = stream_state::request_step(all.from, all.message, fec1, true, session, address, now);
    assert(sends_nothing(begin.actions));
    assert forall|i: int| 0 <= i < all.actions.len() implies !is_request(
        #[trigger] all.actions[i],
    ) by {}
    lemma_not_asked(all.actions, session, address, b);
    request_laws::lemma_asked_add(all.actions, more.actions, session, address, b);
    lemma_expected_again(fec1, now, c * 1384);
    let picked = request_laws::every_chunk_of_the_best_holes_is_asked_for(
        all.from,
        all.message,
        fec1,
        session,
        address,
        now,
    );
    assert(request_laws::asked(more.actions, session, address, b) <==> request_laws::chunk_in(
        picked,
        c,
    ) && !request_laws::expected(fec1, now, c * 1384) && !request_laws::awaited(
        all.from.pending,
        now,
        c,
    ));
    if request_laws::chunk_in(picked, c) && is_of_one(packets, c) {
        let k = choose|k: int|
            0 <= k < packets.len() && (#[trigger] packets[k]).at.0 as int / 1384 == c;
        assert(all.from.buffer.filled[packets[k].at.0 as int / 1384]);
        let h = choose|h: int|
            0 <= h < picked.len() && (#[trigger] picked[h]).start <= c < picked[h].end;
        assert(request_laws::is_hole(all.from.buffer.filled, picked[h]));
        assert(!all.from.buffer.filled[c]);
    }
    assert(c as u64 as int == c);
    assert(all.from.pending.dom().contains(c as u64) <==> from.pending.dom().contains(c as u64)
        && !is_of_one(packets, c));
    picked
}

/// A chunk that has arrived is waited for no more.
pub proof fn what_arrived_is_waited_for_no_more(
    from: FromView,
    message: StreamMessage,
    fec: Map<u64, FecBatchWindow>,
    packet: views::DataView,
    address: Address,
    now: Timestamp,
)
    requires
        from.buffer.wf(),
    ensures
        ({
            let c = packet.byte_range_start.0 as int / 1384;
            let step = stream_state::data_step(from, message, fec, packet, address, now);
            let after = step.stream.streaming->From_0;
            step.outcome != Outcome::Refused ==> !request_laws::awaited(after.pending, now, c)
        }),
{
    let at = packet.byte_range_start.0 as int;
    let c = at / 1384;
    let taken = stream_state::intake(from, message, fec, packet, now);
    let step = stream_state::data_step(from, message, fec, packet, address, now);
    writing_fills_a_chunk(from.buffer, at, packet.payload);
    if step.outcome == Outcome::GoesOn {
        let from1 = taken.stream.streaming->From_0;
        let settled = packet.fec_info.batch_pos + 1 == packet.fec_info.batch_size;
        assert(!request_laws::awaited(from1.pending, now, c));
        assert(from1.buffer.filled[c]);
        if from1.buffer.at_end() {
            request_laws::every_missing_chunk_is_asked_for(
                from1,
                taken.stream.message,
                taken.stream.fec,
                settled,
                packet.session_id,
                address,
                now,
                c,
                c * 1384,
            );
        } else if settled {
            let picked = request_laws::every_chunk_of_the_best_holes_is_asked_for(
                from1,
                taken.stream.message,
                taken.stream.fec,
                packet.session_id,
                address,
                now,
            );
            let after = step.stream.streaming->From_0;
            assert(request_laws::awaited(after.pending, now, c) <==> request_laws::awaited(
                from1.pending,
                now,
                c,
            ) || (request_laws::chunk_in(picked, c) && !request_laws::expected(
                taken.stream.fec,
                now,
                c * 1384,
            )));
            if request_laws::chunk_in(picked, c) {
                let h = choose|h: int|
                    0 <= h < picked.len() && (#[trigger] picked[h]).start <= c < picked[h].end;
                assert(request_laws::is_hole(from1.buffer.filled, picked[h]));
                assert(!from1.buffer.filled[c]);
            }
        }
    }
}

} // verus!
