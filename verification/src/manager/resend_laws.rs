//! What is sent again, and asked for again, when something was lost on the way.
use vstd::prelude::*;

use crate::manager::connection::ConnView;
use crate::manager::control_laws;
use crate::manager::fec_prune;
use crate::manager::fields::{BytePosition, SessionId};
use crate::manager::held;
use crate::manager::held::Fate;
use crate::manager::identity::Address;
use crate::manager::playback_laws;
use crate::manager::ranges;
use crate::manager::request_laws;
use crate::manager::requests;
use crate::manager::state::StateView;
use crate::manager::streaming;
use crate::manager::types::Timestamp;
use crate::manager::views::PacketView;
use crate::manager::windows;
use crate::manager::windows::{AckView, PendingAckQueueEntry};
use crate::packet_processor::fec::pruning::Pruned;
use crate::utils::data_collection::Observation;
use crate::utils::messages::ActionView;

verus! {

/// Whether the first `n` packets of a queue were sent more than half a second ago.
pub open spec fn are_late(queue: Seq<PendingAckQueueEntry>, now: Timestamp, n: int) -> bool {
    &&& 0 <= n <= queue.len()
    &&& forall|i: int| 0 <= i < n ==> now.0 - (#[trigger] queue[i]).timestamp.0 > 500
}

/// Whether just the first `n` packets of a queue were sent more than half a second ago.
pub open spec fn late_ones(queue: Seq<PendingAckQueueEntry>, now: Timestamp, n: int) -> bool {
    &&& are_late(queue, now, n)
    &&& n < queue.len() ==> now.0 - queue[n].timestamp.0 <= 500
}

proof fn lemma_due(queue: Seq<PendingAckQueueEntry>, now: Timestamp, i: int, n: int)
    requires
        late_ones(queue, now, n),
        0 <= i <= n,
    ensures
        windows::due_until(queue, now, i) == n,
    decreases n - i,
{
    if i < n {
        assert(now.0 - queue[i].timestamp.0 > 500);
        lemma_due(queue, now, i + 1, n);
    }
}

proof fn lemma_retry(due: Seq<PendingAckQueueEntry>, now: Timestamp, i: int) -> (j: int)
    requires
        0 <= i < due.len(),
        due[i].retries < 5,
    ensures
        0 <= j < windows::to_retry(due, now).len(),
        windows::to_retry(due, now)[j].fingerprint == due[i].fingerprint,
        windows::to_retry(due, now)[j].timestamp == now,
        windows::to_retry(due, now)[j].retries == due[i].retries + 1,
    decreases due.len(),
{
    let before = windows::to_retry(due.drop_last(), now);
    if i == due.len() - 1 {
        before.len() as int
    } else {
        assert(due.drop_last()[i] == due[i]);
        lemma_retry(due.drop_last(), now, i)
    }
}

/// The address of the peer that a packet is for, if its session is established.
pub open spec fn peer_of(packet: PacketView, connections: Map<u64, ConnView>) -> Option<Address> {
    match packet.session() {
        Some(id) => if connections.dom().contains(id.0) && connections[id.0] is Established {
            Some(connections[id.0]->Established_0.address)
        } else {
            None
        },
        None => None,
    }
}

proof fn lemma_resent(
    queue: Seq<PendingAckQueueEntry>,
    retries: Seq<PendingAckQueueEntry>,
    pending: Map<u128, PacketView>,
    connections: Map<u64, ConnView>,
    j: int,
    address: Address,
)
    requires
        0 <= j < retries.len(),
        pending.dom().contains(retries[j].fingerprint.0),
        peer_of(pending[retries[j].fingerprint.0], connections) == Some(address),
    ensures
        windows::resent(queue, retries, pending, connections).actions.contains(
            ActionView::Resend { packet: pending[retries[j].fingerprint.0], addr: address },
        ),
        windows::resent(queue, retries, pending, connections).queue.contains(retries[j]),
    decreases retries.len(),
{
    let rest = retries.drop_last();
    let before = windows::resent(queue, rest, pending, connections);
    let after = windows::resent(queue, retries, pending, connections);
    let wanted = ActionView::Resend {
        packet: pending[retries[j].fingerprint.0],
        addr: address,
    };
    if j == retries.len() - 1 {
        assert(after.actions[before.actions.len() as int] == wanted);
        assert(after.queue[before.queue.len() as int] == retries[j]);
    } else {
        assert(rest[j] == retries[j]);
        lemma_resent(queue, rest, pending, connections, j, address);
        let a = choose|a: int| 0 <= a < before.actions.len() && before.actions[a] == wanted;
        assert(after.actions[a] == wanted);
        let q = choose|q: int| 0 <= q < before.queue.len() && before.queue[q] == retries[j];
        assert(after.queue[q] == retries[j]);
    }
}

proof fn lemma_resent_keeps(
    queue: Seq<PendingAckQueueEntry>,
    retries: Seq<PendingAckQueueEntry>,
    pending: Map<u128, PacketView>,
    connections: Map<u64, ConnView>,
)
    ensures
        ({
            let after = windows::resent(queue, retries, pending, connections);
            &&& after.queue.len() >= queue.len()
            &&& after.queue.take(queue.len() as int) == queue
            &&& after.actions.len() == after.queue.len() - queue.len()
        }),
    decreases retries.len(),
{
    if retries.len() > 0 {
        lemma_resent_keeps(queue, retries.drop_last(), pending, connections);
        let before = windows::resent(queue, retries.drop_last(), pending, connections);
        let after = windows::resent(queue, retries, pending, connections);
        assert(after.queue.take(queue.len() as int) =~= before.queue.take(queue.len() as int));
    } else {
        assert(queue.take(queue.len() as int) =~= queue);
    }
}

/// A packet whose acknowledgement is half a second late is sent again, as it was, to where the
/// peer of its session is then, and is waited for anew, as long as it was not sent again five
/// times. After that it is given up.
pub proof fn late_packets_are_sent_again(
    ack: AckView,
    connections: Map<u64, ConnView>,
    now: Timestamp,
    n: int,
    i: int,
)
    requires
        late_ones(ack.queue, now, n),
        0 <= i < n,
        ack.queue[i].retries <= 5,
        ack.pending.dom().contains(ack.queue[i].fingerprint.0),
        peer_of(ack.pending[ack.queue[i].fingerprint.0], connections) is Some,
    ensures
        ({
            let entry = ack.queue[i];
            let packet = ack.pending[entry.fingerprint.0];
            let actions = ack.sweep(connections, now).actions;
            let after = ack.swept(connections, now);
            &&& entry.retries < 5 ==> actions.contains(
                ActionView::Resend { packet, addr: peer_of(packet, connections)->0 },
            ) && after.queue.contains(
                PendingAckQueueEntry {
                    timestamp: now,
                    fingerprint: entry.fingerprint,
                    retries: (entry.retries + 1) as u8,
                },
            )
            &&& entry.retries == 5 ==> !after.pending.dom().contains(entry.fingerprint.0)
        }),
{
    lemma_due(ack.queue, now, 0, n);
    let due = ack.queue.take(n);
    let entry = ack.queue[i];
    assert(due[i] == entry);
    if entry.retries < 5 {
        let j = lemma_retry(due, now, i);
        let retries = windows::to_retry(due, now);
        let packet = ack.pending[entry.fingerprint.0];
        assert(retries[j] == (PendingAckQueueEntry {
            timestamp: now,
            fingerprint: entry.fingerprint,
            retries: (entry.retries + 1) as u8,
        }));
        lemma_resent(
            ack.queue.skip(n),
            retries,
            ack.pending,
            connections,
            j,
            peer_of(packet, connections)->0,
        );
    } else {
        assert(windows::given_up(due, entry.fingerprint.0));
    }
}

/// A packet that is not late is neither sent again nor forgotten.
pub proof fn packets_in_time_are_left_alone(
    ack: AckView,
    connections: Map<u64, ConnView>,
    now: Timestamp,
    n: int,
    f: u128,
)
    requires
        late_ones(ack.queue, now, n),
    ensures
        ({
            let after = ack.swept(connections, now);
            &&& after.queue.len() >= ack.queue.len() - n
            &&& after.queue.take(ack.queue.len() - n) == ack.queue.skip(n)
            &&& n == 0 ==> ack.sweep(connections, now).actions.len() == 0
            &&& ack.sweep(connections, now).actions.len() == after.queue.len() - (ack.queue.len()
                - n)
            &&& (forall|i: int|
                0 <= i < n && (#[trigger] ack.queue[i]).fingerprint.0 == f
                    ==> ack.queue[i].retries < 5) ==> (after.pending.dom().contains(f)
                <==> ack.pending.dom().contains(f))
            &&& after.pending.dom().contains(f) ==> after.pending[f] == ack.pending[f]
        }),
{
    lemma_due(ack.queue, now, 0, n);
    let due = ack.queue.take(n);
    lemma_resent_keeps(
        ack.queue.skip(n),
        windows::to_retry(due, now),
        ack.pending,
        connections,
    );
    if windows::given_up(due, f) {
        let i = choose|i: int|
            0 <= i < due.len() && (#[trigger] due[i]).retries == windows::MAX_RETRIES
                && due[i].fingerprint.0 == f;
        assert(ack.queue[i] == due[i]);
    }
    if n == 0 {
        assert(due.len() == 0);
        assert(windows::to_retry(due, now).len() == 0);
    }
}

/// A packet that wants an acknowledgement is waited for from when it was sent, unless the
/// window is closed, and no other packet's wait is touched.
pub proof fn packets_are_waited_for(
    ack: AckView,
    packet: PacketView,
    print: u128,
    now: Timestamp,
    other: u128,
)
    ensures
        ({
            let after = ack.waiting_for(packet, print, now);
            &&& ack.canceled ==> after == ack
            &&& !ack.canceled ==> {
                &&& after.pending.dom().contains(print)
                &&& after.pending[print] == packet
                &&& after.queue.len() == ack.queue.len() + 1
                &&& after.queue.drop_last() == ack.queue
                &&& after.queue.last().timestamp == now
                &&& after.queue.last().fingerprint.0 == print
                &&& after.queue.last().retries == 0
                &&& other != print ==> (after.pending.dom().contains(other)
                    <==> ack.pending.dom().contains(other))
                &&& other != print && ack.pending.dom().contains(other) ==> after.pending[other]
                    == ack.pending[other]
            }
        }),
{
    let after = ack.waiting_for(packet, print, now);
    if !ack.canceled {
        assert(after.queue.drop_last() =~= ack.queue);
    }
}

/// The next sweep comes no later than when the oldest packet that waits is late, give or take
/// a tenth of a second.
pub proof fn sweeps_keep_pace(ack: AckView, now: Timestamp, n: int)
    requires
        late_ones(ack.queue, now, n),
    ensures
        n == ack.queue.len() ==> ack.next_sweep(now) == 500,
        n < ack.queue.len() && ack.queue[n].timestamp.0 <= now.0 ==> ack.next_sweep(now) == now.0
            - ack.queue[n].timestamp.0 + 100 && ack.next_sweep(now) <= 600,
{
    lemma_due(ack.queue, now, 0, n);
    if n < ack.queue.len() {
        assert(ack.queue.skip(n)[0] == ack.queue[n]);
    }
}

/// A packet that came before its session was there is handled once the session is, if that
/// takes no longer than seven seconds; it is dropped if the session does not come, or comes
/// too late.
pub proof fn held_packets_are_handled_in_time(
    session: SessionId,
    ended: SessionId,
    since: Timestamp,
    confirmed: bool,
    now: Timestamp,
)
    ensures
        ({
            let fate = held::fate_of(Some(session), since, ended, confirmed, now);
            &&& fate == Fate::Handled <==> session == ended && confirmed && now.0 - since.0 <= 7000
            &&& fate == Fate::Waits <==> session != ended && now.0 - since.0 <= 7000
            &&& fate == Fate::Dropped <==> now.0 - since.0 > 7000 || (session == ended
                && !confirmed)
        }),
{
}

proof fn lemma_affected(pruned: Seq<Pruned>, session: SessionId)
    ensures
        fec_prune::affected(pruned).contains(session) <==> exists|k: int|
            0 <= k < pruned.len() && (#[trigger] pruned[k]).0 == session && pruned[k].2@.len() > 0,
        fec_prune::affected(pruned).no_duplicates(),
    decreases pruned.len(),
{
    if pruned.len() > 0 {
        let rest = pruned.drop_last();
        let last = pruned.last();
        lemma_affected(rest, session);
        let before = fec_prune::affected(rest);
        let after = fec_prune::affected(pruned);
        assert(pruned[pruned.len() - 1] == last);
        if exists|k: int|
            0 <= k < rest.len() && (#[trigger] rest[k]).0 == session && rest[k].2@.len() > 0 {
            let k = choose|k: int|
                0 <= k < rest.len() && (#[trigger] rest[k]).0 == session && rest[k].2@.len() > 0;
            assert(pruned[k] == rest[k]);
        }
        if exists|k: int|
            0 <= k < pruned.len() && (#[trigger] pruned[k]).0 == session && pruned[k].2@.len()
                > 0 {
            let k = choose|k: int|
                0 <= k < pruned.len() && (#[trigger] pruned[k]).0 == session && pruned[k].2@.len()
                    > 0;
            if k < rest.len() {
                assert(rest[k] == pruned[k]);
            }
        }
        if after != before {
            assert(after == before.push(last.0));
            assert(after[before.len() as int] == last.0);
            if before.contains(session) {
                let i = choose|i: int| 0 <= i < before.len() && before[i] == session;
                assert(after[i] == session);
            }
            if after.contains(session) {
                let i = choose|i: int| 0 <= i < after.len() && after[i] == session;
                assert(i < before.len() ==> before[i] == session);
            }
        }
    }
}

proof fn lemma_missed(pruned: Seq<Pruned>, session: SessionId, p: BytePosition)
    ensures
        fec_prune::missed_by(pruned, session).contains(p) <==> exists|k: int|
            0 <= k < pruned.len() && (#[trigger] pruned[k]).0 == session && pruned[k].2@.contains(
                p,
            ),
    decreases pruned.len(),
{
    if pruned.len() > 0 {
        let rest = pruned.drop_last();
        let last = pruned.last();
        lemma_missed(rest, session, p);
        let before = fec_prune::missed_by(rest, session);
        let after = fec_prune::missed_by(pruned, session);
        assert(pruned[pruned.len() - 1] == last);
        if exists|k: int|
            0 <= k < pruned.len() && (#[trigger] pruned[k]).0 == session && pruned[k].2@.contains(
                p,
            ) {
            let k = choose|k: int|
                0 <= k < pruned.len() && (#[trigger] pruned[k]).0 == session
                    && pruned[k].2@.contains(p);
            if k < rest.len() {
                assert(rest[k] == pruned[k]);
            }
        }
        if exists|k: int|
            0 <= k < rest.len() && (#[trigger] rest[k]).0 == session && rest[k].2@.contains(p) {
            let k = choose|k: int|
                0 <= k < rest.len() && (#[trigger] rest[k]).0 == session && rest[k].2@.contains(p);
            assert(pruned[k] == rest[k]);
            let i = choose|i: int| 0 <= i < before.len() && before[i] == p;
            assert(after[i] == p);
        }
        if last.0 == session && last.2@.contains(p) {
            let i = choose|i: int| 0 <= i < last.2@.len() && last.2@[i] == p;
            assert(after[before.len() + i] == p);
        }
        if after.contains(p) {
            let i = choose|i: int| 0 <= i < after.len() && after[i] == p;
            if i < before.len() {
                assert(before[i] == p);
                let k = choose|k: int|
                    0 <= k < rest.len() && (#[trigger] rest[k]).0 == session
                        && rest[k].2@.contains(p);
                assert(pruned[k] == rest[k]);
            } else {
                assert(last.2@[i - before.len()] == p);
                assert(pruned[pruned.len() - 1].2@.contains(p));
            }
        }
    }
}

proof fn lemma_asking_elsewhere(
    state: StateView,
    sessions: Seq<SessionId>,
    pruned: Seq<Pruned>,
    now: Timestamp,
    session: SessionId,
)
    requires
        !sessions.contains(session),
    ensures
        ({
            let after = state.asking_all(sessions, pruned, now).state;
            &&& after.has(session) == state.has(session)
            &&& state.has(session) ==> after.conn(session) == state.conn(session)
        }),
    decreases sessions.len(),
{
    if sessions.len() > 0 {
        let rest = sessions.drop_last();
        assert(!rest.contains(session)) by {
            if rest.contains(session) {
                let i = choose|i: int| 0 <= i < rest.len() && rest[i] == session;
                assert(sessions[i] == session);
            }
        }
        lemma_asking_elsewhere(state, rest, pruned, now, session);
        assert(sessions[sessions.len() - 1] == sessions.last());
    }
}

proof fn lemma_asking(
    state: StateView,
    session: SessionId,
    positions: Seq<BytePosition>,
    now: Timestamp,
    c: int,
    b: int,
)
    requires
        state.receives(session),
        control_laws::receiver(state, session).buffer.wf(),
        forall|j: int|
            0 <= j < positions.len() ==> (#[trigger] positions[j]).0 % 1384 == 0 && positions[j].0
                / 1384 < control_laws::receiver(state, session).buffer.filled.len(),
        0 <= c < control_laws::receiver(state, session).buffer.filled.len(),
        c * 1384 <= b < c * 1384 + 1384,
    ensures
        ({
            let from = control_laws::receiver(state, session);
            let step = state.asking(session, positions, now);
            let after = control_laws::receiver(step.state, session);
            let wanted = positions.contains(BytePosition((c * 1384) as u32))
                && request_laws::lacks(from.buffer, c);
            &&& request_laws::asked(step.actions, session, state.conn(session).addr(), b)
                <==> wanted && !request_laws::awaited(from.pending, now, c)
            &&& request_laws::awaited(after.pending, now, c) <==> wanted || request_laws::awaited(
                from.pending,
                now,
                c,
            )
            &&& step.state.receives(session)
            &&& after.buffer == from.buffer
            &&& control_laws::message_of(step.state, session) == control_laws::message_of(
                state,
                session,
            )
            &&& playback_laws::same_elsewhere(state, step.state, session)
        }),
{
    let from = control_laws::receiver(state, session);
    let reserve = from.reserve(positions, now);
    let fresh = streaming::fresh_pending(from.pending, now);
    let address = state.conn(session).addr();
    let p = BytePosition((c * 1384) as u32);
    request_laws::lemma_reserve(fresh, from.buffer, positions, now);
    assert(c * 1384 <= u32::MAX);
    assert(p.0 as int / 1384 == c);
    assert(fresh.dom().contains(c as u64) <==> request_laws::awaited(from.pending, now, c));
    let accepted = reserve.accepted;
    assert(accepted.contains(p) <==> (positions.contains(p) && request_laws::lacks(
        from.buffer,
        c,
    ) && !fresh.dom().contains(c as u64)));
    ranges::coalesced_covers_positions(accepted, b);
    assert(ranges::positions_have(accepted, b) <==> accepted.contains(p)) by {
        if accepted.contains(p) {
            let j = choose|j: int| 0 <= j < accepted.len() && accepted[j] == p;
            assert(ranges::chunk_range(accepted[j]).has(b));
        }
        if ranges::positions_have(accepted, b) {
            let j = choose|j: int|
                0 <= j < accepted.len() && ranges::chunk_range(#[trigger] accepted[j]).has(b);
            let q = accepted[j];
            assert(accepted.contains(q));
            assert(positions.contains(q));
            let i = choose|i: int| 0 <= i < positions.len() && positions[i] == q;
            assert(positions[i].0 % 1384 == 0);
            assert(q.0 as int == c * 1384);
        }
    }
    request_laws::lemma_sends(session, address, ranges::coalesced(accepted), now, b);
    request_laws::lemma_observed(reserve, session, from.session_id, address, b);
    request_laws::lemma_asked_add(
        reserve.observed(from.session_id),
        requests::retransmit_sends(session, address, ranges::coalesced(accepted), now),
        session,
        address,
        b,
    );
    assert(reserve.pending.dom().contains(c as u64) <==> (fresh.dom().contains(c as u64) || (
    positions.contains(BytePosition((c as u64 * 1384) as u32)) && c as u64 * 1384 <= u32::MAX
        && request_laws::lacks(from.buffer, c))));
}

/// Bytes that are asked for on a session that receives are asked of its peer, in packets that
/// name every one of their chunks that is missing and was not asked for within the last half
/// second, and no others.
pub proof fn wanted_bytes_are_asked_for(
    state: StateView,
    session: SessionId,
    positions: Seq<BytePosition>,
    now: Timestamp,
    c: int,
    b: int,
)
    requires
        state.receives(session),
        control_laws::receiver(state, session).buffer.wf(),
        forall|j: int|
            0 <= j < positions.len() ==> (#[trigger] positions[j]).0 % 1384 == 0 && positions[j].0
                / 1384 < control_laws::receiver(state, session).buffer.filled.len(),
        0 <= c < control_laws::receiver(state, session).buffer.filled.len(),
        c * 1384 <= b < c * 1384 + 1384,
    ensures
        ({
            let from = control_laws::receiver(state, session);
            let step = state.asking(session, positions, now);
            let after = control_laws::receiver(step.state, session);
            let wanted = positions.contains(BytePosition((c * 1384) as u32))
                && request_laws::lacks(from.buffer, c);
            &&& request_laws::asked(step.actions, session, state.conn(session).addr(), b)
                <==> wanted && !request_laws::awaited(from.pending, now, c)
            &&& request_laws::awaited(after.pending, now, c) <==> wanted || request_laws::awaited(
                from.pending,
                now,
                c,
            )
            &&& step.state.receives(session)
            &&& after.buffer == from.buffer
            &&& control_laws::message_of(step.state, session) == control_laws::message_of(
                state,
                session,
            )
            &&& playback_laws::same_elsewhere(state, step.state, session)
        }),
{
    lemma_asking(state, session, positions, now, c, b);
}

proof fn lemma_asking_all(
    state: StateView,
    sessions: Seq<SessionId>,
    pruned: Seq<Pruned>,
    now: Timestamp,
    session: SessionId,
    c: int,
    b: int,
)
    requires
        sessions.no_duplicates(),
        sessions.contains(session),
        state.receives(session),
        control_laws::receiver(state, session).buffer.wf(),
        ({
            let positions = fec_prune::missed_by(pruned, session);
            forall|j: int|
                0 <= j < positions.len() ==> (#[trigger] positions[j]).0 % 1384 == 0
                    && positions[j].0 / 1384 < control_laws::receiver(
                    state,
                    session,
                ).buffer.filled.len()
        }),
        0 <= c < control_laws::receiver(state, session).buffer.filled.len(),
        c * 1384 <= b < c * 1384 + 1384,
        fec_prune::missed_by(pruned, session).contains(BytePosition((c * 1384) as u32)),
        request_laws::lacks(control_laws::receiver(state, session).buffer, c),
        !request_laws::awaited(control_laws::receiver(state, session).pending, now, c),
    ensures
        request_laws::asked(
            state.asking_all(sessions, pruned, now).actions,
            session,
            state.conn(session).addr(),
            b,
        ),
    decreases sessions.len(),
{
    let rest = sessions.drop_last();
    let last = sessions.last();
    let before = state.asking_all(rest, pruned, now);
    let step = before.state.asking(last, fec_prune::missed_by(pruned, last), now);
    let address = state.conn(session).addr();
    request_laws::lemma_asked_add(before.actions, step.actions, session, address, b);
    assert(rest.no_duplicates()) by {
        assert forall|i: int, j: int|
            0 <= i < rest.len() && 0 <= j < rest.len() && i != j implies rest[i] != rest[j] by {
            assert(sessions[i] != sessions[j]);
        }
    }
    let k = choose|k: int| 0 <= k < sessions.len() && sessions[k] == session;
    if last == session {
        assert(!rest.contains(session)) by {
            if rest.contains(session) {
                let i = choose|i: int| 0 <= i < rest.len() && rest[i] == session;
                assert(sessions[i] != sessions[sessions.len() - 1]);
            }
        }
        lemma_asking_elsewhere(state, rest, pruned, now, session);
        lemma_asking(
            before.state,
            session,
            fec_prune::missed_by(pruned, session),
            now,
            c,
            b,
        );
    } else {
        assert(rest[k] == session);
        lemma_asking_all(state, rest, pruned, now, session, c, b);
    }
}

proof fn lemma_unrecoverable(pruned: Seq<Pruned>, k: int)
    requires
        0 <= k < pruned.len(),
        pruned[k].2@.len() > 0,
    ensures
        fec_prune::unrecoverable(pruned).contains(
            ActionView::Observe(Observation::BatchUnrecoverable { session: pruned[k].0 }),
        ),
    decreases pruned.len(),
{
    let before = fec_prune::unrecoverable(pruned.drop_last());
    let after = fec_prune::unrecoverable(pruned);
    let wanted = ActionView::Observe(Observation::BatchUnrecoverable { session: pruned[k].0 });
    if k == pruned.len() - 1 {
        assert(after[before.len() as int] == wanted);
    } else {
        assert(pruned.drop_last()[k] == pruned[k]);
        lemma_unrecoverable(pruned.drop_last(), k);
        let i = choose|i: int| 0 <= i < before.len() && before[i] == wanted;
        assert(after[i] == wanted);
    }
}

/// What a batch that is given up has not brought is asked for: every one of its chunks that is
/// still missing, of the peer of its session, unless it was asked for within the last half
/// second. That the batch was lost is noted.
pub proof fn what_a_lost_batch_lacked_is_asked_for(
    state: StateView,
    pruned: Seq<Pruned>,
    now: Timestamp,
    k: int,
    c: int,
    b: int,
)
    requires
        0 <= k < pruned.len(),
        state.receives(pruned[k].0),
        control_laws::receiver(state, pruned[k].0).buffer.wf(),
        forall|m: int, j: int|
            0 <= m < pruned.len() && 0 <= j < pruned[m].2@.len() && pruned[m].0 == pruned[k].0
                ==> (#[trigger] pruned[m].2@[j]).0 % 1384 == 0 && pruned[m].2@[j].0 / 1384
                < control_laws::receiver(state, pruned[k].0).buffer.filled.len(),
        pruned[k].2@.contains(BytePosition((c * 1384) as u32)),
        request_laws::lacks(control_laws::receiver(state, pruned[k].0).buffer, c),
        !request_laws::awaited(control_laws::receiver(state, pruned[k].0).pending, now, c),
        c * 1384 <= b < c * 1384 + 1384,
    ensures
        request_laws::asked(
            state.given_up(pruned, now).actions,
            pruned[k].0,
            state.conn(pruned[k].0).addr(),
            b,
        ),
        state.given_up(pruned, now).actions.contains(
            ActionView::Observe(Observation::BatchUnrecoverable { session: pruned[k].0 }),
        ),
{
    let session = pruned[k].0;
    let positions = fec_prune::missed_by(pruned, session);
    let p = BytePosition((c * 1384) as u32);
    assert(pruned[k].2@.len() > 0);
    lemma_affected(pruned, session);
    lemma_missed(pruned, session, p);
    assert forall|j: int| 0 <= j < positions.len() implies (#[trigger] positions[j]).0 % 1384 == 0
        && positions[j].0 / 1384 < control_laws::receiver(state, session).buffer.filled.len() by {
        lemma_missed(pruned, session, positions[j]);
        assert(positions.contains(positions[j]));
        let m = choose|m: int|
            0 <= m < pruned.len() && (#[trigger] pruned[m]).0 == session && pruned[m].2@.contains(
                positions[j],
            );
        let i = choose|i: int|
            0 <= i < pruned[m].2@.len() && pruned[m].2@[i] == positions[j];
        assert(pruned[m].2@[i].0 % 1384 == 0);
    }
    lemma_asking_all(state, fec_prune::affected(pruned), pruned, now, session, c, b);
    let noted = fec_prune::unrecoverable(pruned);
    let asking = state.asking_all(fec_prune::affected(pruned), pruned, now);
    request_laws::lemma_asked_add(
        noted,
        asking.actions,
        session,
        state.conn(session).addr(),
        b,
    );
    lemma_unrecoverable(pruned, k);
    let wanted = ActionView::Observe(Observation::BatchUnrecoverable { session });
    let i = choose|i: int| 0 <= i < noted.len() && noted[i] == wanted;
    assert(state.given_up(pruned, now).actions[i] == wanted);
}

} // verus!
