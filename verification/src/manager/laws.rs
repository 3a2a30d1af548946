//! What holds of the protocol as a whole, whatever is done with it.
use vstd::prelude::*;

use crate::manager::connection::ConnView;
use crate::manager::fields::{HandshakeId, SessionId};
use crate::manager::identity::Address;
use crate::manager::session_fec::PACKET_DISCARD_TIME_MS;
use crate::manager::state::StateView;
use crate::manager::tables;
use crate::manager::types::Timestamp;
use crate::manager::views;
use crate::manager::windows;
use crate::manager::windows::{AckView, PendingAckQueueEntry, MAX_RETRIES};
use crate::packet_processor::encryption;
use crate::packet_processor::outbound;
use crate::utils::messages::{ActionView, StreamMessage};
use crate::wire;

verus! {

/// Whether something to do is to send a packet again that waits for an acknowledgement other
/// than the given one.
pub open spec fn resends_another(
    action: ActionView,
    pending: Map<u128, views::PacketView>,
    fingerprint: u128,
) -> bool {
    exists|f: u128| #[trigger]
        pending.dom().contains(f) && f != fingerprint && (action matches ActionView::Resend {
            packet,
            addr,
        } && packet == pending[f])
}

proof fn lemma_resent_pending(
    queue: Seq<PendingAckQueueEntry>,
    retries: Seq<PendingAckQueueEntry>,
    pending: Map<u128, views::PacketView>,
    connections: Map<u64, ConnView>,
    fingerprint: u128,
)
    requires
        !pending.dom().contains(fingerprint),
    ensures
        ({
            let actions = windows::resent(queue, retries, pending, connections).actions;
            forall|i: int|
                0 <= i < actions.len() ==> resends_another(
                    #[trigger] actions[i],
                    pending,
                    fingerprint,
                )
        }),
    decreases retries.len(),
{
    if retries.len() > 0 {
        lemma_resent_pending(queue, retries.drop_last(), pending, connections, fingerprint);
        let before = windows::resent(queue, retries.drop_last(), pending, connections);
        let actions = windows::resent(queue, retries, pending, connections).actions;
        let f = retries.last().fingerprint.0;
        assert forall|i: int| 0 <= i < actions.len() implies resends_another(
            #[trigger] actions[i],
            pending,
            fingerprint,
        ) by {
            if i < before.actions.len() {
                assert(actions[i] == before.actions[i]);
            } else {
                assert(pending.dom().contains(f));
            }
        }
    }
}

/// A packet that was acknowledged is not sent again, in this sweep or, as it is no longer
/// waited for afterwards, in a later one.
pub proof fn acknowledged_is_not_sent_again(
    ack: AckView,
    fingerprint: u128,
    connections: Map<u64, ConnView>,
    now: Timestamp,
)
    requires
        !ack.canceled,
    ensures
        ({
            let after = ack.acknowledged(fingerprint);
            let actions = after.sweep(connections, now).actions;
            &&& forall|i: int|
                0 <= i < actions.len() ==> resends_another(
                    #[trigger] actions[i],
                    ack.pending,
                    fingerprint,
                )
            &&& !after.swept(connections, now).pending.dom().contains(fingerprint)
        }),
{
    let after = ack.acknowledged(fingerprint);
    let due = after.due(now);
    lemma_resent_pending(
        after.queue.skip(due),
        windows::to_retry(after.queue.take(due), now),
        after.pending,
        connections,
        fingerprint,
    );
    let actions = after.sweep(connections, now).actions;
    assert forall|i: int| 0 <= i < actions.len() implies resends_another(
        #[trigger] actions[i],
        ack.pending,
        fingerprint,
    ) by {
        assert(resends_another(actions[i], after.pending, fingerprint));
        let f = choose|f: u128| #[trigger]
            after.pending.dom().contains(f) && f != fingerprint && (
            actions[i] matches ActionView::Resend { packet, addr } && packet == after.pending[f]);
        assert(ack.pending.dom().contains(f));
    }
}

/// How often the packets of a queue can still be sent again, all together.
pub open spec fn attempts_left(queue: Seq<PendingAckQueueEntry>) -> int
    decreases queue.len(),
{
    if queue.len() == 0 {
        0
    } else {
        attempts_left(queue.drop_last()) + (MAX_RETRIES - queue.last().retries)
    }
}

proof fn lemma_left_push(queue: Seq<PendingAckQueueEntry>, entry: PendingAckQueueEntry)
    ensures
        attempts_left(queue.push(entry)) == attempts_left(queue) + (MAX_RETRIES - entry.retries),
{
    assert(queue.push(entry).drop_last() =~= queue);
}

proof fn lemma_left_join(a: Seq<PendingAckQueueEntry>, b: Seq<PendingAckQueueEntry>)
    ensures
        attempts_left(a + b) == attempts_left(a) + attempts_left(b),
    decreases b.len(),
{
    if b.len() == 0 {
        assert(a + b =~= a);
    } else {
        assert((a + b).drop_last() =~= a + b.drop_last());
        lemma_left_join(a, b.drop_last());
    }
}

proof fn lemma_retry_costs(due: Seq<PendingAckQueueEntry>, now: Timestamp)
    requires
        windows::bounded(due),
    ensures
        attempts_left(windows::to_retry(due, now)) + windows::to_retry(due, now).len()
            <= attempts_left(due),
        windows::bounded(windows::to_retry(due, now)),
    decreases due.len(),
{
    if due.len() > 0 {
        assert(windows::bounded(due.drop_last()));
        lemma_retry_costs(due.drop_last(), now);
        let before = windows::to_retry(due.drop_last(), now);
        assert(due[due.len() - 1].retries <= MAX_RETRIES);
        lemma_left_push(before, due.last().again(now));
        assert(windows::bounded(windows::to_retry(due, now)));
    }
}

proof fn lemma_resent_costs(
    queue: Seq<PendingAckQueueEntry>,
    retries: Seq<PendingAckQueueEntry>,
    pending: Map<u128, views::PacketView>,
    connections: Map<u64, ConnView>,
)
    requires
        windows::bounded(retries),
    ensures
        ({
            let r = windows::resent(queue, retries, pending, connections);
            &&& r.actions.len() <= retries.len()
            &&& attempts_left(r.queue) <= attempts_left(queue) + attempts_left(retries)
        }),
    decreases retries.len(),
{
    if retries.len() > 0 {
        assert(windows::bounded(retries.drop_last()));
        lemma_resent_costs(queue, retries.drop_last(), pending, connections);
        let before = windows::resent(queue, retries.drop_last(), pending, connections);
        assert(retries[retries.len() - 1].retries <= MAX_RETRIES);
        lemma_left_push(before.queue, retries.last());
    }
}

/// Every packet that is sent again uses up an attempt. A packet starts with
/// [`MAX_RETRIES`] of them, so it is sent again at most that often.
pub proof fn resends_are_bounded(ack: AckView, connections: Map<u64, ConnView>, now: Timestamp)
    requires
        ack.wf(),
    ensures
        ack.sweep(connections, now).actions.len() + attempts_left(
            ack.swept(connections, now).queue,
        ) <= attempts_left(ack.queue),
        forall|packet: views::PacketView, fingerprint: u128|
            !ack.canceled ==> attempts_left(
                (#[trigger] ack.waiting_for(packet, fingerprint, now)).queue,
            ) == attempts_left(ack.queue) + MAX_RETRIES,
{
    lemma_due_in_range(ack.queue, now, 0);
    let due = ack.due(now);
    let first = ack.queue.take(due);
    let rest = ack.queue.skip(due);
    assert(ack.queue =~= first + rest);
    lemma_left_join(first, rest);
    assert forall|i: int| 0 <= i < first.len() implies (#[trigger] first[i]).retries
        <= MAX_RETRIES by {
        assert(first[i] == ack.queue[i]);
    }
    lemma_retry_costs(first, now);
    lemma_resent_costs(rest, windows::to_retry(first, now), ack.pending, connections);
    assert forall|packet: views::PacketView, fingerprint: u128| !ack.canceled implies attempts_left(
        (#[trigger] ack.waiting_for(packet, fingerprint, now)).queue,
    ) == attempts_left(ack.queue) + MAX_RETRIES by {
        let waiting = ack.waiting_for(packet, fingerprint, now);
        lemma_left_push(ack.queue, waiting.queue.last());
    }
}

proof fn lemma_due_in_range(queue: Seq<PendingAckQueueEntry>, now: Timestamp, i: int)
    requires
        0 <= i <= queue.len(),
    ensures
        i <= windows::due_until(queue, now, i) <= queue.len(),
    decreases queue.len() - i,
{
    if i < queue.len() && queue[i].overdue(now) {
        lemma_due_in_range(queue, now, i + 1);
    }
}

proof fn lemma_stale_stops(queue: Seq<(Timestamp, u128)>, now: Timestamp, from: int, i: int)
    requires
        0 <= from <= i < queue.len(),
        !queue[i].0.older_than(PACKET_DISCARD_TIME_MS, now),
    ensures
        from <= windows::stale_until(queue, now, from) <= i,
    decreases i - from,
{
    if queue[from].0.older_than(PACKET_DISCARD_TIME_MS, now) {
        lemma_stale_stops(queue, now, from + 1, i);
    }
}

/// A packet that arrived within the time that packets live is remembered, so that a copy of
/// it is recognised.
pub proof fn recent_packets_are_remembered(queue: Seq<(Timestamp, u128)>, now: Timestamp, i: int)
    requires
        0 <= i < queue.len(),
        !queue[i].0.older_than(PACKET_DISCARD_TIME_MS, now),
    ensures
        windows::queued(queue.skip(windows::stale_until(queue, now, 0)), queue[i].1),
{
    lemma_stale_stops(queue, now, 0, i);
    let n = windows::stale_until(queue, now, 0);
    assert(queue.skip(n)[i - n] == queue[i]);
}

/// The counter of a key after `n` packets.
pub open spec fn counter_after(counter: u64, n: nat) -> u64
    decreases n,
{
    if n == 0 {
        counter
    } else {
        outbound::next_counter(counter_after(counter, (n - 1) as nat))
    }
}

proof fn lemma_counter_after(counter: u64, n: nat)
    ensures
        counter_after(counter, n) == (counter + n) % 0x1_0000_0000_0000_0000,
    decreases n,
{
    if n > 0 {
        lemma_counter_after(counter, (n - 1) as nat);
    }
}

/// No two of the packets that a peer protects with one key have the same nonce, as long as
/// there are at most as many as the counter counts.
pub proof fn nonces_do_not_repeat(session: SessionId, counter: u64, a: nat, b: nat)
    requires
        a < b,
        b - a < 0x1_0000_0000_0000_0000,
    ensures
        encryption::nonce_of(session, wire::be64(counter_after(counter, a)))
            != encryption::nonce_of(session, wire::be64(counter_after(counter, b))),
{
    lemma_counter_after(counter, a);
    lemma_counter_after(counter, b);
    let ca = counter_after(counter, a);
    let cb = counter_after(counter, b);
    let na = encryption::nonce_of(session, wire::be64(ca));
    let nb = encryption::nonce_of(session, wire::be64(cb));
    assert(na.skip(4) =~= wire::be64(ca));
    assert(nb.skip(4) =~= wire::be64(cb));
    if na == nb {
        let s = wire::be64(ca);
        assert(s.subrange(0, 8) =~= s);
        wire::lemma_rd64(s, 0, ca);
        wire::lemma_rd64(s, 0, cb);
    }
}

impl StateView {
    /// Whether every session goes by its own id and is found at the address of its peer.
    pub open spec fn located(self) -> bool {
        forall|id: u64| #[trigger]
            self.connections.dom().contains(id) ==> self.connections[id].id() == SessionId(id)
                && tables::has_session(
                self.address_session,
                self.connections[id].addr(),
                SessionId(id),
            )
    }
}

proof fn lemma_first_place_found(list: Seq<SessionId>, session: SessionId, i: int, at: int)
    requires
        0 <= i <= at < list.len(),
        list[at] == session,
    ensures
        i <= tables::first_place(list, session, i) <= at,
        list[tables::first_place(list, session, i)] == session,
    decreases at - i,
{
    if list[i] != session {
        lemma_first_place_found(list, session, i + 1, at);
    }
}

proof fn lemma_others_stay(
    table: Map<Address, Seq<SessionId>>,
    address: Address,
    session: SessionId,
    there: Address,
    other: SessionId,
)
    requires
        tables::has_session(table, there, other),
        other != session,
    ensures
        tables::has_session(
            tables::without_session(table, address, session),
            there,
            other,
        ),
{
    if tables::has_session(table, address, session) && address == there {
        let list = table[address];
        let at = choose|at: int| 0 <= at < list.len() && list[at] == session;
        lemma_first_place_found(list, session, 0, at);
        let gap = tables::first_place(list, session, 0);
        let rest = tables::swap_removed(list, gap);
        let place = choose|i: int| 0 <= i < list.len() && list[i] == other;
        if place == list.len() - 1 {
            assert(rest[gap] == other);
        } else {
            assert(rest[place] == other);
        }
        assert(rest.contains(other));
    }
}

proof fn lemma_added_stays(
    table: Map<Address, Seq<SessionId>>,
    address: Address,
    session: SessionId,
    there: Address,
    other: SessionId,
)
    requires
        tables::has_session(table, there, other) || (there == address && other == session),
    ensures
        tables::has_session(tables::with_session(table, address, session), there, other),
{
    let after = tables::with_session(table, address, session);
    if there == address {
        if other == session {
            assert(after[address].last() == session);
        } else {
            let i = choose|i: int| 0 <= i < table[address].len() && table[address][i] == other;
            assert(after[address][i] == other);
        }
    }
}

/// A session that is begun is found where its peer is, and the others stay where they are.
pub proof fn beginning_keeps_located(
    state: StateView,
    session: SessionId,
    ticket: u64,
    address: Address,
    app_id: Seq<u8>,
)
    requires
        state.located(),
    ensures
        state.with_session(session, ticket, address, app_id).located(),
{
    let after = state.with_session(session, ticket, address, app_id);
    assert forall|id: u64| #[trigger] after.connections.dom().contains(id) implies (
    after.connections[id].id() == SessionId(id) && tables::has_session(
        after.address_session,
        after.connections[id].addr(),
        SessionId(id),
    )) by {
        if !state.has(session) {
            if id != session.0 {
                assert(state.connections.dom().contains(id));
            }
            lemma_added_stays(
                state.address_session,
                address,
                session,
                after.connections[id].addr(),
                SessionId(id),
            );
        }
    }
}

/// The answer to a handshake keeps every session where it is found, whatever session the
/// peer names.
pub proof fn promotion_keeps_located(
    state: StateView,
    session: SessionId,
    address: Address,
    id: HandshakeId,
    app_id: Seq<u8>,
)
    requires
        state.located(),
    ensures
        state.promoted(session, address, id, app_id).located(),
{
    let after = state.promoted(session, address, id, app_id);
    assert forall|k: u64| #[trigger] after.connections.dom().contains(k) implies (
    after.connections[k].id() == SessionId(k) && tables::has_session(
        after.address_session,
        after.connections[k].addr(),
        SessionId(k),
    )) by {
        if state.promotable(session, id) {
            if k != session.0 {
                assert(state.connections.dom().contains(k));
            }
            lemma_added_stays(
                state.address_session,
                address,
                session,
                after.connections[k].addr(),
                SessionId(k),
            );
        } else {
            assert(state.connections.dom().contains(k));
        }
    }
}

/// The confirmation of a session keeps every session where it is found.
pub proof fn confirmation_keeps_located(state: StateView, session: SessionId)
    requires
        state.located(),
    ensures
        state.confirmed(session).located(),
        state.confirmed(session).connections.dom() == state.connections.dom(),
{
    if state.has(session) {
        assert(state.connections.dom().contains(session.0));
        assert(state.conn(session).id() == session);
    }
    let after = state.confirmed(session);
    assert(after.connections.dom() =~= state.connections.dom());
    assert forall|id: u64| #[trigger] after.connections.dom().contains(id) implies (
    after.connections[id].id() == SessionId(id) && tables::has_session(
        after.address_session,
        after.connections[id].addr(),
        SessionId(id),
    )) by {
        assert(state.connections.dom().contains(id));
    }
}

/// The end of a session leaves nothing of it, neither where it is found nor its key, and
/// leaves the others as they are.
pub proof fn ending_leaves_nothing(state: StateView, session: SessionId, other: SessionId)
    requires
        state.located(),
        state.has(session),
    ensures
        !state.without(session).has(session),
        !state.without(session).encryption.dom().contains(session.0),
        state.without(session).located(),
        other != session ==> {
            &&& state.without(session).has(other) == state.has(other)
            &&& state.has(other) ==> state.without(session).conn(other) == state.conn(other)
            &&& state.without(session).encryption.dom().contains(other.0)
                == state.encryption.dom().contains(other.0)
            &&& state.encryption.dom().contains(other.0) ==> state.without(
                session,
            ).encryption[other.0] == state.encryption[other.0]
        },
{
    let after = state.without(session);
    assert(state.connections.dom().contains(session.0));
    assert forall|id: u64| #[trigger] after.connections.dom().contains(id) implies (
    after.connections[id].id() == SessionId(id) && tables::has_session(
        after.address_session,
        after.connections[id].addr(),
        SessionId(id),
    )) by {
        assert(state.connections.dom().contains(id));
        lemma_others_stay(
            state.address_session,
            state.conn(session).addr(),
            session,
            state.connections[id].addr(),
            SessionId(id),
        );
    }
}

/// A peer that moves is found at its new address. The others stay where they are.
pub proof fn moving_keeps_located(state: StateView, session: SessionId, new: Address)
    requires
        state.located(),
        state.has(session),
    ensures
        state.moved(session, new).located(),
        state.moved(session, new).conn(session).addr() == new,
        state.moved(session, new).connections.dom() == state.connections.dom(),
        forall|id: u64|
            id != session.0 && #[trigger] state.connections.dom().contains(id) ==> state.moved(
                session,
                new,
            ).connections[id] == state.connections[id],
{
    let after = state.moved(session, new);
    assert(state.connections.dom().contains(session.0));
    assert(after.connections.dom() =~= state.connections.dom());
    assert forall|id: u64| #[trigger] after.connections.dom().contains(id) implies (
    after.connections[id].id() == SessionId(id) && tables::has_session(
        after.address_session,
        after.connections[id].addr(),
        SessionId(id),
    )) by {
        assert(state.connections.dom().contains(id));
        if state.movable(session, new) {
            let there = state.connections[id].addr();
            if id != session.0 {
                lemma_others_stay(
                    state.address_session,
                    state.conn(session).addr(),
                    session,
                    there,
                    SessionId(id),
                );
            }
            lemma_added_stays(
                tables::without_session(
                    state.address_session,
                    state.conn(session).addr(),
                    session,
                ),
                new,
                session,
                after.connections[id].addr(),
                SessionId(id),
            );
        }
    }
}

/// What happens to the stream of one session, its end or news of it, keeps every session
/// where it is found and leaves the other sessions as they are.
pub proof fn streams_keep_located(state: StateView, session: SessionId, message: StreamMessage)
    requires
        state.located(),
        state.streams(session),
    ensures
        state.stream_closed(session).located(),
        state.with_message(session, message).located(),
        state.stream_closed(session).connections.dom() == state.connections.dom(),
        state.with_message(session, message).connections.dom() == state.connections.dom(),
        forall|id: u64|
            id != session.0 && #[trigger] state.connections.dom().contains(id)
                ==> state.stream_closed(session).connections[id] == state.connections[id]
                && state.with_message(session, message).connections[id] == state.connections[id],
{
    assert(state.connections.dom().contains(session.0));
    let closed = state.stream_closed(session);
    let told = state.with_message(session, message);
    assert(closed.connections.dom() =~= state.connections.dom());
    assert(told.connections.dom() =~= state.connections.dom());
    assert forall|id: u64| #[trigger] closed.connections.dom().contains(id) implies (
    closed.connections[id].id() == SessionId(id) && tables::has_session(
        closed.address_session,
        closed.connections[id].addr(),
        SessionId(id),
    )) by {
        assert(state.connections.dom().contains(id));
    }
    assert forall|id: u64| #[trigger] told.connections.dom().contains(id) implies (
    told.connections[id].id() == SessionId(id) && tables::has_session(
        told.address_session,
        told.connections[id].addr(),
        SessionId(id),
    )) by {
        assert(state.connections.dom().contains(id));
    }
}

proof fn lemma_stale_run(queue: Seq<(Timestamp, u128)>, now: Timestamp, from: int)
    requires
        0 <= from <= queue.len(),
    ensures
        from <= windows::stale_until(queue, now, from) <= queue.len(),
        forall|k: int|
            from <= k < windows::stale_until(queue, now, from) ==> now.0 - (
            #[trigger] queue[k]).0.0 > 500,
        windows::stale_until(queue, now, from) < queue.len() ==> now.0 - queue[windows::stale_until(
            queue,
            now,
            from,
        )].0.0 <= 500,
    decreases queue.len() - from,
{
    if from < queue.len() && queue[from].0.older_than(PACKET_DISCARD_TIME_MS, now) {
        lemma_stale_run(queue, now, from + 1);
    }
}

/// Packets are forgotten, oldest first, once they are older than packets live, and not before:
/// what is left begins with one that is not, and what is gone was.
pub proof fn old_packets_are_forgotten(queue: Seq<(Timestamp, u128)>, now: Timestamp)
    ensures
        ({
            let n = windows::stale_until(queue, now, 0);
            let left = queue.skip(n);
            &&& 0 <= n <= queue.len()
            &&& left.len() > 0 ==> now.0 - left[0].0.0 <= 500
            &&& forall|k: int| 0 <= k < n ==> now.0 - (#[trigger] queue[k]).0.0 > 500
        }),
{
    lemma_stale_run(queue, now, 0);
}

} // verus!
