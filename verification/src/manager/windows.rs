//! What was sent and not acknowledged, and what arrived of late.
use std::collections::VecDeque;

use vstd::prelude::*;

use crate::manager::connection::{ConnView, ConnectionStates};
use crate::manager::identity::{Address, PacketFingerprint};
use crate::manager::packets::Packet;
use crate::manager::session_fec::PACKET_DISCARD_TIME_MS;
use crate::manager::tables;
use crate::manager::types::Timestamp;
use crate::manager::views;
use crate::packet_processor::fingerprint;
use crate::utils::messages;
use crate::utils::messages::{Action, ActionView};
use crate::utils::table::Table;

verus! {

/// How often a packet is sent again before it is given up.
pub const MAX_RETRIES: u8 = 5;

/// How long the sweep over unacknowledged packets waits beyond what it must, in
/// milliseconds.
pub const ACK_BUFFERING_TIME: u64 = 100;

/// How long the sweep over fingerprints waits beyond what it must, in milliseconds.
pub const FINGERPRINT_BUFFERING_TIME: u64 = 2000;

/// A packet that waits for its acknowledgement.
#[derive(Debug, Clone, Copy, PartialEq, Eq, Structural)]
pub struct PendingAckQueueEntry {
    /// When the packet was last sent.
    pub timestamp: Timestamp,
    pub fingerprint: PacketFingerprint,
    /// How often it was sent again.
    pub retries: u8,
}

impl PendingAckQueueEntry {
    /// The entry of a packet that is sent for the first time.
    pub fn new(fingerprint: PacketFingerprint, now: Timestamp) -> (e: Self)
        ensures
            e == (PendingAckQueueEntry { timestamp: now, fingerprint, retries: 0 }),
    {
        PendingAckQueueEntry { timestamp: now, fingerprint, retries: 0 }
    }

    /// Counts one more attempt. Says whether the packet is to be given up.
    pub fn retried(&mut self) -> (r: bool)
        requires
            old(self).retries <= MAX_RETRIES,
        ensures
            *final(self) == (PendingAckQueueEntry {
                retries: (old(self).retries + 1) as u8,
                ..*old(self)
            }),
            r == (old(self).retries == MAX_RETRIES),
    {
        self.retries = self.retries + 1;
        self.retries > MAX_RETRIES
    }

    /// Whether the acknowledgement has been due for too long.
    pub open spec fn overdue(self, now: Timestamp) -> bool {
        self.timestamp.older_than(PACKET_DISCARD_TIME_MS, now)
    }

    /// Whether the acknowledgement has been due for too long.
    pub fn ready_to_retry(&self, now: Timestamp) -> (r: bool)
        ensures
            r == self.overdue(now),
    {
        self.timestamp.been_longer_than(PACKET_DISCARD_TIME_MS, now)
    }

    /// The entry after one more attempt.
    pub open spec fn again(self, now: Timestamp) -> PendingAckQueueEntry {
        PendingAckQueueEntry {
            timestamp: now,
            fingerprint: self.fingerprint,
            retries: (self.retries + 1) as u8,
        }
    }
}

/// The packets that wait for an acknowledgement, for contracts.
#[verifier::ext_equal]
pub struct AckView {
    /// The packets by fingerprint.
    pub pending: Map<u128, views::PacketView>,
    /// When each was sent, oldest first.
    pub queue: Seq<PendingAckQueueEntry>,
    /// Whether the window is closed.
    pub canceled: bool,
}

/// First entry from `i` on that is not overdue.
pub open spec fn due_until(queue: Seq<PendingAckQueueEntry>, now: Timestamp, i: int) -> int
    decreases queue.len() - i,
{
    if 0 <= i < queue.len() && queue[i].overdue(now) {
        due_until(queue, now, i + 1)
    } else {
        i
    }
}

/// Those of the entries that get one more attempt.
pub open spec fn to_retry(due: Seq<PendingAckQueueEntry>, now: Timestamp) -> Seq<
    PendingAckQueueEntry,
>
    decreases due.len(),
{
    if due.len() == 0 {
        seq![]
    } else {
        let before = to_retry(due.drop_last(), now);
        if due.last().retries < MAX_RETRIES {
            before.push(due.last().again(now))
        } else {
            before
        }
    }
}

/// Whether one of the entries is given up and has the given fingerprint.
pub open spec fn given_up(due: Seq<PendingAckQueueEntry>, fingerprint: u128) -> bool {
    exists|i: int|
        0 <= i < due.len() && (#[trigger] due[i]).retries == MAX_RETRIES && due[i].fingerprint.0
            == fingerprint
}

/// Where a packet is sent again: where the peer of its session is, if the session is
/// established.
pub open spec fn resend_to(
    packet: views::PacketView,
    connections: Map<u64, ConnView>,
) -> Option<Address> {
    match packet.session() {
        Some(id) => if connections.dom().contains(id.0) && connections[id.0] is Established {
            Some(connections[id.0].addr())
        } else {
            None
        },
        None => None,
    }
}

/// What comes of attempts to send again.
#[verifier::ext_equal]
pub struct Resent {
    pub queue: Seq<PendingAckQueueEntry>,
    pub actions: Seq<ActionView>,
}

/// Sends again what is still not acknowledged and whose session is established.
pub open spec fn resent(
    queue: Seq<PendingAckQueueEntry>,
    retries: Seq<PendingAckQueueEntry>,
    pending: Map<u128, views::PacketView>,
    connections: Map<u64, ConnView>,
) -> Resent
    decreases retries.len(),
{
    if retries.len() == 0 {
        Resent { queue, actions: seq![] }
    } else {
        let before = resent(queue, retries.drop_last(), pending, connections);
        let entry = retries.last();
        if pending.dom().contains(entry.fingerprint.0) && resend_to(
            pending[entry.fingerprint.0],
            connections,
        ) is Some {
            Resent {
                queue: before.queue.push(entry),
                actions: before.actions.push(
                    ActionView::Resend {
                        packet: pending[entry.fingerprint.0],
                        addr: resend_to(pending[entry.fingerprint.0], connections)->Some_0,
                    },
                ),
            }
        } else {
            before
        }
    }
}

impl AckView {
    /// The window with one more packet that waits, unless it is closed.
    pub open spec fn waiting_for(
        self,
        packet: views::PacketView,
        fingerprint: u128,
        now: Timestamp,
    ) -> AckView {
        if self.canceled {
            self
        } else {
            AckView {
                pending: self.pending.insert(fingerprint, packet),
                queue: self.queue.push(
                    PendingAckQueueEntry {
                        timestamp: now,
                        fingerprint: PacketFingerprint(fingerprint),
                        retries: 0,
                    },
                ),
                canceled: false,
            }
        }
    }

    /// The window once a packet was acknowledged, unless it is closed.
    pub open spec fn acknowledged(self, fingerprint: u128) -> AckView {
        if self.canceled {
            self
        } else {
            AckView { pending: self.pending.remove(fingerprint), ..self }
        }
    }

    /// How many entries at the front are overdue.
    pub open spec fn due(self, now: Timestamp) -> int {
        due_until(self.queue, now, 0)
    }

    /// What is sent again at `now`, and what the queue is then.
    pub open spec fn sweep(self, connections: Map<u64, ConnView>, now: Timestamp) -> Resent {
        let due = self.due(now);
        resent(
            self.queue.skip(due),
            to_retry(self.queue.take(due), now),
            self.pending,
            connections,
        )
    }

    /// The window after a sweep.
    pub open spec fn swept(self, connections: Map<u64, ConnView>, now: Timestamp) -> AckView {
        AckView {
            pending: self.pending.remove_keys(
                Set::new(|f: u128| given_up(self.queue.take(self.due(now)), f)),
            ),
            queue: self.sweep(connections, now).queue,
            canceled: self.canceled,
        }
    }

    /// How long until the next sweep, in milliseconds.
    pub open spec fn next_sweep(self, now: Timestamp) -> int {
        let rest = self.queue.skip(self.due(now));
        let top = if rest.len() == 0 {
            PACKET_DISCARD_TIME_MS - ACK_BUFFERING_TIME
        } else if now.0 < rest[0].timestamp.0 {
            0
        } else {
            now.0 - rest[0].timestamp.0
        };
        top + ACK_BUFFERING_TIME
    }
}

/// The packets that wait for an acknowledgement.
#[derive(Debug)]
pub struct PendingAckWindow {
    pending: Table<u128, Packet>,
    queue: VecDeque<PendingAckQueueEntry>,
    canceled: bool,
}

impl View for PendingAckWindow {
    type V = AckView;

    closed spec fn view(&self) -> AckView {
        AckView {
            pending: self.pending@.map_values(|p: Packet| p@),
            queue: self.queue@,
            canceled: self.canceled,
        }
    }
}

/// Whether no packet was sent again too often.
pub open spec fn bounded(queue: Seq<PendingAckQueueEntry>) -> bool {
    forall|i: int| 0 <= i < queue.len() ==> (#[trigger] queue[i]).retries <= MAX_RETRIES
}

impl AckView {
    /// Whether no packet was sent again too often.
    pub open spec fn wf(self) -> bool {
        bounded(self.queue)
    }
}

proof fn lemma_to_retry_bounded(due: Seq<PendingAckQueueEntry>, now: Timestamp)
    ensures
        bounded(to_retry(due, now)),
    decreases due.len(),
{
    if due.len() > 0 {
        let before = to_retry(due.drop_last(), now);
        lemma_to_retry_bounded(due.drop_last(), now);
        assert(bounded(before.push(due.last().again(now))) || due.last().retries >= MAX_RETRIES);
    }
}

proof fn lemma_resent_bounded(
    queue: Seq<PendingAckQueueEntry>,
    retries: Seq<PendingAckQueueEntry>,
    pending: Map<u128, views::PacketView>,
    connections: Map<u64, ConnView>,
)
    requires
        bounded(queue),
        bounded(retries),
    ensures
        bounded(resent(queue, retries, pending, connections).queue),
    decreases retries.len(),
{
    if retries.len() > 0 {
        let before = resent(queue, retries.drop_last(), pending, connections);
        assert(bounded(retries.drop_last()));
        lemma_resent_bounded(queue, retries.drop_last(), pending, connections);
        assert(retries[retries.len() - 1].retries <= MAX_RETRIES);
        assert(bounded(before.queue.push(retries.last())));
    }
}

impl PendingAckWindow {
    /// Nothing waits.
    pub fn new() -> (w: Self)
        ensures
            w@.wf(),
            w@ == (AckView { pending: Map::empty(), queue: seq![], canceled: false }),
    {
        let w = PendingAckWindow {
            pending: Table::new(),
            queue: VecDeque::new(),
            canceled: false,
        };
        assert(w@ =~= (AckView { pending: Map::empty(), queue: seq![], canceled: false }));
        w
    }

    /// Begins to wait for the acknowledgement of a packet. Packets that are never
    /// acknowledged, and packets that come when the window is closed, are left out.
    pub fn add(&mut self, packet: Packet, now: Timestamp)
        requires
            old(self)@.wf(),
        ensures
            final(self)@.wf(),
            final(self)@ == (match packet.fingerprinted() {
                Some(bytes) => old(self)@.waiting_for(
                    packet@,
                    fingerprint::xxh3_128_of(bytes),
                    now,
                ),
                None => old(self)@,
            }),
    {
        if self.canceled {
            return;
        }
        let ghost before = *self;
        match packet.fingerprint() {
            Some(f) => {
                self.pending.insert(f.0, packet);
                self.queue.push_back(PendingAckQueueEntry::new(f, now));
                assert(self@.pending =~= before@.pending.insert(f.0, packet@));
                assert(self@.queue =~= before@.queue.push(
                    PendingAckQueueEntry { timestamp: now, fingerprint: f, retries: 0 },
                ));
            },
            None => {},
        }
    }

    /// The packet with the given fingerprint was acknowledged.
    pub fn acknowledge(&mut self, fingerprint: PacketFingerprint)
        ensures
            old(self)@.wf() ==> final(self)@.wf(),
            final(self)@ == old(self)@.acknowledged(fingerprint.0),
    {
        if self.canceled {
            return;
        }
        let ghost before = *self;
        let _ = self.pending.remove(fingerprint.0);
        assert(self@.pending =~= before@.pending.remove(fingerprint.0));
    }

    /// Closes the window.
    pub fn close(&mut self)
        ensures
            old(self)@.wf() ==> final(self)@.wf(),
            final(self)@ == (AckView { canceled: true, ..old(self)@ }),
    {
        self.canceled = true;
    }

    /// Whether the window is closed.
    pub fn is_closed(&self) -> (r: bool)
        ensures
            r == self@.canceled,
    {
        self.canceled
    }

    fn take_due(&mut self, now: Timestamp) -> (r: (
        Vec<PendingAckQueueEntry>,
        Vec<PacketFingerprint>,
    ))
        requires
            old(self)@.wf(),
        ensures
            final(self)@ == (AckView {
                queue: old(self)@.queue.skip(old(self)@.due(now)),
                ..old(self)@
            }),
            0 <= old(self)@.due(now) <= old(self)@.queue.len(),
            r.0@ == to_retry(old(self)@.queue.take(old(self)@.due(now)), now),
            forall|f: u128| #[trigger]
                given_up(old(self)@.queue.take(old(self)@.due(now)), f) <==> r.1@.contains(
                    PacketFingerprint(f),
                ),
    {
        let ghost q0 = self@.queue;
        let ghost before = self@;
        let mut retry: Vec<PendingAckQueueEntry> = Vec::new();
        let mut expired: Vec<PacketFingerprint> = Vec::new();
        let ghost mut k: int = 0;
        assert(q0.skip(0) =~= q0);
        assert(q0.take(0) =~= seq![]);
        while self.queue.len() > 0 && self.queue[0].ready_to_retry(now)
            invariant
                before.wf(),
                before.queue == q0,
                0 <= k <= q0.len(),
                self@ =~= (AckView { queue: q0.skip(k), ..before }),
                due_until(q0, now, 0) == due_until(q0, now, k),
                retry@ == to_retry(q0.take(k), now),
                forall|f: u128| #[trigger]
                    given_up(q0.take(k), f) <==> expired@.contains(PacketFingerprint(f)),
            decreases q0.len() - k,
        {
            assert(self.queue@[0] == q0[k]);
            match self.queue.pop_front() {
                Some(mut entry) => {
                    let ghost entry0 = entry;
                    let ghost expired0 = expired@;
                    assert(entry0 == q0[k]);
                    assert(q0.take(k + 1).drop_last() =~= q0.take(k));
                    assert(q0.take(k + 1).last() == entry0);
                    if entry.retried() {
                        expired.push(entry.fingerprint);
                        assert(expired@.last() == entry0.fingerprint);
                    } else {
                        entry.timestamp.set_again(now);
                        retry.push(entry);
                        assert(entry == entry0.again(now));
                    }
                    assert forall|f: u128| #[trigger] given_up(q0.take(k + 1), f)
                        <==> expired@.contains(PacketFingerprint(f)) by {
                        let now_due = q0.take(k + 1);
                        if given_up(now_due, f) {
                            let i = choose|i: int|
                                0 <= i < now_due.len() && (#[trigger] now_due[i]).retries
                                    == MAX_RETRIES && now_due[i].fingerprint.0 == f;
                            if i < k {
                                assert(q0.take(k)[i] == now_due[i]);
                                assert(given_up(q0.take(k), f));
                                let j = expired0.index_of(PacketFingerprint(f));
                                assert(expired@[j] == PacketFingerprint(f));
                            } else {
                                assert(expired@[expired@.len() - 1] == PacketFingerprint(f));
                            }
                        }
                        if expired@.contains(PacketFingerprint(f)) {
                            let j = expired@.index_of(PacketFingerprint(f));
                            if j < expired0.len() {
                                assert(expired0[j] == PacketFingerprint(f));
                                assert(given_up(q0.take(k), f));
                                let i = choose|i: int|
                                    0 <= i < q0.take(k).len() && (
                                    #[trigger] q0.take(k)[i]).retries == MAX_RETRIES && q0.take(
                                        k,
                                    )[i].fingerprint.0 == f;
                                assert(now_due[i] == q0.take(k)[i]);
                            } else {
                                assert(now_due[k] == entry0);
                            }
                        }
                    }
                    proof {
                        k = k + 1;
                    }
                    assert(self.queue@ =~= q0.skip(k));
                },
                None => {},
            }
        }
        proof {
            if k < q0.len() {
                assert(self.queue@[0] == q0[k]);
            }
            assert(due_until(q0, now, 0) == k);
        }
        (retry, expired)
    }

    fn resend(
        &mut self,
        retries: &Vec<PendingAckQueueEntry>,
        connections: &Table<u64, ConnectionStates>,
        actions: &mut Vec<Action>,
    )
        ensures
            ({
                let r = resent(
                    old(self)@.queue,
                    retries@,
                    old(self)@.pending,
                    tables::conn_views(connections@),
                );
                &&& final(self)@ == (AckView { queue: r.queue, ..old(self)@ })
                &&& messages::action_views(final(actions)@) == messages::action_views(
                    old(actions)@,
                ) + r.actions
            }),
    {
        let ghost before = self@;
        let ghost views0 = messages::action_views(actions@);
        let ghost conns = tables::conn_views(connections@);
        let mut i: usize = 0;
        assert(retries@.take(0) =~= seq![]);
        while i < retries.len()
            invariant
                i <= retries@.len(),
                conns == tables::conn_views(connections@),
                self@ =~= (AckView {
                    queue: resent(before.queue, retries@.take(i as int), before.pending, conns).queue,
                    ..before
                }),
                messages::action_views(actions@) =~= views0 + resent(
                    before.queue,
                    retries@.take(i as int),
                    before.pending,
                    conns,
                ).actions,
            decreases retries.len() - i,
        {
            let entry: PendingAckQueueEntry = retries[i];
            assert(retries@.take(i + 1).drop_last() =~= retries@.take(i as int));
            assert(retries@.take(i + 1).last() == entry);
            match self.pending.get(entry.fingerprint.0) {
                Some(packet) => {
                    assert(before.pending.dom().contains(entry.fingerprint.0));
                    assert(before.pending[entry.fingerprint.0] == packet@);
                    match packet.session_id() {
                        Some(id) => match connections.get(id.0) {
                            Some(connection) => {
                                assert(conns.dom().contains(id.0) && conns[id.0] == connection@);
                                match connection {
                                    ConnectionStates::Established(established) => {
                                        let addr: Address = established.address;
                                        let copy: Packet = packet.duplicate();
                                        self.queue.push_back(entry);
                                        messages::push_action(
                                            actions,
                                            Action::Resend { packet: copy, addr },
                                        );
                                    },
                                    ConnectionStates::Handshake { .. } => {},
                                }
                            },
                            None => {},
                        },
                        None => {},
                    }
                },
                None => {},
            }
            i += 1;
        }
        assert(retries@.take(retries@.len() as int) =~= retries@);
    }

    fn give_up(&mut self, expired: &Vec<PacketFingerprint>)
        ensures
            final(self)@ == (AckView {
                pending: old(self)@.pending.remove_keys(
                    Set::new(|f: u128| expired@.contains(PacketFingerprint(f))),
                ),
                ..old(self)@
            }),
    {
        let ghost before = self@;
        let mut i: usize = 0;
        while i < expired.len()
            invariant
                i <= expired@.len(),
                self@ =~= (AckView {
                    pending: before.pending.remove_keys(
                        Set::new(
                            |f: u128| expired@.take(i as int).contains(PacketFingerprint(f)),
                        ),
                    ),
                    ..before
                }),
            decreases expired.len() - i,
        {
            let ghost prev = self@;
            let _ = self.pending.remove(expired[i].0);
            assert(self@.pending =~= prev.pending.remove(expired@[i as int].0));
            assert forall|f: u128| #[trigger]
                expired@.take(i + 1).contains(PacketFingerprint(f)) <==> (expired@.take(
                    i as int,
                ).contains(PacketFingerprint(f)) || f == expired@[i as int].0) by {
                let shorter = expired@.take(i as int);
                let longer = expired@.take(i + 1);
                if longer.contains(PacketFingerprint(f)) {
                    let j = longer.index_of(PacketFingerprint(f));
                    if j < i {
                        assert(shorter[j] == PacketFingerprint(f));
                    }
                }
                if shorter.contains(PacketFingerprint(f)) {
                    let j = shorter.index_of(PacketFingerprint(f));
                    assert(longer[j] == PacketFingerprint(f));
                }
                assert(longer[i as int] == expired@[i as int]);
            }
            i += 1;
        }
        assert(expired@.take(expired@.len() as int) =~= expired@);
    }

    /// Sends again what has not been acknowledged for too long, and gives up what was
    /// sent again too often. Says how many milliseconds to wait until the next sweep.
    pub fn prune(
        &mut self,
        connections: &Table<u64, ConnectionStates>,
        now: Timestamp,
        actions: &mut Vec<Action>,
    ) -> (wait: u64)
        requires
            old(self)@.wf(),
        ensures
            final(self)@.wf(),
            final(self)@ == old(self)@.swept(tables::conn_views(connections@), now),
            messages::action_views(final(actions)@) == messages::action_views(old(actions)@)
                + old(self)@.sweep(tables::conn_views(connections@), now).actions,
            wait == (if old(self)@.next_sweep(now) > u64::MAX {
                u64::MAX as int
            } else {
                old(self)@.next_sweep(now)
            }),
    {
        let ghost before = self@;
        let ghost due = before.due(now);
        let (retry, expired) = self.take_due(now);
        let ghost rest = self@;
        let top: u64 = if self.queue.len() > 0 {
            now.0.saturating_sub(self.queue[0].timestamp.0)
        } else {
            PACKET_DISCARD_TIME_MS - ACK_BUFFERING_TIME
        };
        proof {
            assert forall|i: int| 0 <= i < rest.queue.len() implies (
            #[trigger] rest.queue[i]).retries <= MAX_RETRIES by {
                assert(rest.queue[i] == before.queue[due + i]);
            }
            lemma_to_retry_bounded(before.queue.take(due), now);
            lemma_resent_bounded(
                rest.queue,
                retry@,
                before.pending,
                tables::conn_views(connections@),
            );
        }
        self.resend(&retry, connections, actions);
        self.give_up(&expired);
        assert(Set::new(|f: u128| expired@.contains(PacketFingerprint(f))) =~= Set::new(
            |f: u128| given_up(before.queue.take(due), f),
        ));
        top.saturating_add(ACK_BUFFERING_TIME)
    }
}

/// First entry from `i` on that is not too old.
pub open spec fn stale_until(queue: Seq<(Timestamp, u128)>, now: Timestamp, i: int) -> int
    decreases queue.len() - i,
{
    if 0 <= i < queue.len() && queue[i].0.older_than(PACKET_DISCARD_TIME_MS, now) {
        stale_until(queue, now, i + 1)
    } else {
        i
    }
}

/// Whether a fingerprint is in the queue.
pub open spec fn queued(queue: Seq<(Timestamp, u128)>, fingerprint: u128) -> bool {
    exists|i: int| 0 <= i < queue.len() && (#[trigger] queue[i]).1 == fingerprint
}

/// The fingerprints of packets that arrived of late, and when they arrived.
#[derive(Debug)]
pub struct FingerprintWindow {
    fingerprints: Table<u128, ()>,
    queue: VecDeque<(Timestamp, u128)>,
}

impl View for FingerprintWindow {
    type V = Seq<(Timestamp, u128)>;

    closed spec fn view(&self) -> Seq<(Timestamp, u128)> {
        self.queue@
    }
}

impl FingerprintWindow {
    /// Whether each fingerprint is there once.
    pub closed spec fn wf(self) -> bool {
        &&& forall|f: u128| #[trigger]
            self.fingerprints@.dom().contains(f) <==> queued(self.queue@, f)
        &&& forall|i: int, j: int|
            0 <= i < j < self.queue@.len() ==> (#[trigger] self.queue@[i]).1 != (
            #[trigger] self.queue@[j]).1
    }

    /// Whether a packet with this fingerprint arrived of late.
    pub fn contains(&self, fingerprint: &PacketFingerprint) -> (r: bool)
        requires
            self.wf(),
        ensures
            r == queued(self@, fingerprint.0),
    {
        self.fingerprints.contains(fingerprint.0)
    }

    /// Takes note of a packet. Says whether it is new; if it is not, the window stays
    /// as it is.
    pub fn add(&mut self, fingerprint: PacketFingerprint, now: Timestamp) -> (r: bool)
        requires
            old(self).wf(),
        ensures
            final(self).wf(),
            r == !queued(old(self)@, fingerprint.0),
            final(self)@ == (if r {
                old(self)@.push((now, fingerprint.0))
            } else {
                old(self)@
            }),
    {
        if self.fingerprints.contains(fingerprint.0) {
            return false;
        }
        let ghost q0 = self.queue@;
        let ghost set0 = self.fingerprints@;
        self.fingerprints.insert(fingerprint.0, ());
        self.queue.push_back((now, fingerprint.0));
        assert(self.queue@ =~= q0.push((now, fingerprint.0)));
        assert forall|f: u128| #[trigger]
            self.fingerprints@.dom().contains(f) <==> queued(self.queue@, f) by {
            if f == fingerprint.0 {
                assert(self.queue@[q0.len() as int].1 == f);
            }
            if queued(q0, f) {
                let i = choose|i: int| 0 <= i < q0.len() && (#[trigger] q0[i]).1 == f;
                assert(self.queue@[i].1 == f);
            }
            if queued(self.queue@, f) && f != fingerprint.0 {
                let i = choose|i: int|
                    0 <= i < self.queue@.len() && (#[trigger] self.queue@[i]).1 == f;
                assert(q0[i].1 == f);
            }
            assert(set0.dom().contains(f) <==> queued(q0, f));
        }
        true
    }

    /// Forgets what arrived too long ago. Says how many milliseconds to wait until the
    /// next sweep.
    pub fn prune(&mut self, now: Timestamp) -> (wait: u64)
        requires
            old(self).wf(),
        ensures
            final(self).wf(),
            0 <= stale_until(old(self)@, now, 0) <= old(self)@.len(),
            final(self)@ == old(self)@.skip(stale_until(old(self)@, now, 0)),
            wait == (if final(self)@.len() == 0 {
                PACKET_DISCARD_TIME_MS as int
            } else if now.0 < final(self)@[0].0.0 {
                FINGERPRINT_BUFFERING_TIME as int
            } else if now.0 - final(self)@[0].0.0 + FINGERPRINT_BUFFERING_TIME > u64::MAX {
                u64::MAX as int
            } else {
                now.0 - final(self)@[0].0.0 + FINGERPRINT_BUFFERING_TIME
            }),
    {
        let ghost q0 = self.queue@;
        let ghost mut k: int = 0;
        assert(q0.skip(0) =~= q0);
        while self.queue.len() > 0 && self.queue[0].0.been_longer_than(PACKET_DISCARD_TIME_MS, now)
            invariant
                0 <= k <= q0.len(),
                self.wf(),
                self.queue@ =~= q0.skip(k),
                stale_until(q0, now, 0) == stale_until(q0, now, k),
            decreases q0.len() - k,
        {
            let ghost q = self.queue@;
            let ghost set0 = self.fingerprints@;
            assert(q[0] == q0[k]);
            match self.queue.pop_front() {
                Some(top) => {
                    let _ = self.fingerprints.remove(top.1);
                    assert(self.queue@ =~= q.skip(1));
                    assert forall|i: int, j: int| 0 <= i < j < self.queue@.len() implies (
                    #[trigger] self.queue@[i]).1 != (#[trigger] self.queue@[j]).1 by {
                        assert(self.queue@[i] == q[i + 1] && self.queue@[j] == q[j + 1]);
                    }
                    assert forall|f: u128| #[trigger]
                        self.fingerprints@.dom().contains(f) <==> queued(self.queue@, f) by {
                        assert(set0.dom().contains(f) <==> queued(q, f));
                        if queued(self.queue@, f) {
                            let i = choose|i: int|
                                0 <= i < self.queue@.len() && (#[trigger] self.queue@[i]).1 == f;
                            assert(q[i + 1].1 == f);
                            assert(q[0].1 != q[i + 1].1);
                        }
                        if queued(q, f) && f != top.1 {
                            let i = choose|i: int| 0 <= i < q.len() && (#[trigger] q[i]).1 == f;
                            assert(self.queue@[i - 1].1 == f);
                        }
                    }
                    proof {
                        k = k + 1;
                    }
                },
                None => {},
            }
        }
        proof {
            if k < q0.len() {
                assert(self.queue@[0] == q0[k]);
            }
            assert(stale_until(q0, now, 0) == k);
        }
        if self.queue.len() > 0 {
            now.0.saturating_sub(self.queue[0].0.0).saturating_add(FINGERPRINT_BUFFERING_TIME)
        } else {
            PACKET_DISCARD_TIME_MS
        }
    }
}

impl Default for FingerprintWindow {
    fn default() -> (w: Self)
        ensures
            w.wf(),
            w@ == Seq::<(Timestamp, u128)>::empty(),
    {
        FingerprintWindow { fingerprints: Table::new(), queue: VecDeque::new() }
    }
}

} // verus!
