//! What a window of measurements says of the observations that were folded into it.
//!
//! Every counter of a window is the sum, every maximum the maximum and every flag the
//! disjunction of what was observed while the window was open.
use vstd::prelude::*;

use crate::manager::fields::SessionId;
use crate::manager::types::Timestamp;
use crate::utils::data_collection::{DataEntry, Observation, SessionIdentity, SessionView};

verus! {

/// What can be summed up over observations.
pub enum Measure {
    BytesSent,
    BytesReceived,
    DataPacketsSent,
    DataPacketsReceived,
    ParityPacketsSent,
    ParityPacketsReceived,
    RetransmitsIssued,
    RetransmitsServed,
    RetransmitsSent,
    RecoveredPackets,
    RecoveredBatches,
    UnrecoverableBatches,
    WastedParity,
    HolesObserved,
    RecoveryLatency,
    BatchFills,
    BatchFillLatency,
    RetransmitRtts,
    RetransmitRtt,
    BusyTicks,
    IdleTicks,
}

impl Measure {
    /// How much one observation adds.
    pub open spec fn part(self, obs: Observation) -> nat {
        match (self, obs) {
            (Measure::BytesSent, Observation::BytesSent { session: _, bytes }) => bytes as nat,
            (
                Measure::BytesReceived,
                Observation::BytesReceived { session: _, bytes },
            ) => bytes as nat,
            (Measure::DataPacketsSent, Observation::DataPacketSent { session: _ }) => 1,
            (Measure::DataPacketsReceived, Observation::DataPacketReceived { session: _ }) => 1,
            (Measure::ParityPacketsSent, Observation::ParityPacketSent { session: _ }) => 1,
            (Measure::ParityPacketsReceived, Observation::ParityPacketReceived { session: _ }) => 1,
            (
                Measure::RetransmitsIssued,
                Observation::RetransmitIssued { session: _, count },
            ) => count as nat,
            (
                Measure::RetransmitsServed,
                Observation::RetransmitServed { session: _, count },
            ) => count as nat,
            (
                Measure::RetransmitsSent,
                Observation::RetransmitSent { session: _, count },
            ) => count as nat,
            (
                Measure::RecoveredPackets,
                Observation::PacketsRecovered { session: _, count },
            ) => count as nat,
            (
                Measure::RecoveredBatches,
                Observation::BatchRecovered { session: _, latency_ms: _ },
            ) => 1,
            (Measure::UnrecoverableBatches, Observation::BatchUnrecoverable { session: _ }) => 1,
            (
                Measure::WastedParity,
                Observation::WastedParity { session: _, count },
            ) => count as nat,
            (
                Measure::HolesObserved,
                Observation::HolesObserved { session: _, count },
            ) => count as nat,
            (
                Measure::RecoveryLatency,
                Observation::BatchRecovered { session: _, latency_ms },
            ) => latency_ms as nat,
            (
                Measure::BatchFills,
                Observation::BatchFillLatency { session: _, latency_ms: _ },
            ) => 1,
            (
                Measure::BatchFillLatency,
                Observation::BatchFillLatency { session: _, latency_ms },
            ) => latency_ms as nat,
            (Measure::RetransmitRtts, Observation::RetransmitRtt { session: _, rtt_ms: _ }) => 1,
            (
                Measure::RetransmitRtt,
                Observation::RetransmitRtt { session: _, rtt_ms },
            ) => rtt_ms as nat,
            (Measure::BusyTicks, Observation::SendTick { session: _, emitted }) => if emitted {
                1
            } else {
                0
            },
            (Measure::IdleTicks, Observation::SendTick { session: _, emitted }) => if emitted {
                0
            } else {
                1
            },
            _ => 0,
        }
    }
}

/// The sum of a measure over observations.
pub open spec fn sum_of(seen: Seq<(Observation, Timestamp)>, measure: Measure) -> nat
    decreases seen.len(),
{
    if seen.len() == 0 {
        0
    } else {
        sum_of(seen.drop_last(), measure) + measure.part(seen.last().0)
    }
}

/// The longest loss burst among observations, zero if there is none.
pub open spec fn longest_burst(seen: Seq<(Observation, Timestamp)>) -> u32
    decreases seen.len(),
{
    if seen.len() == 0 {
        0
    } else {
        let before = longest_burst(seen.drop_last());
        match seen.last().0 {
            Observation::LossBurst { session: _, length } => if length > before {
                length
            } else {
                before
            },
            _ => before,
        }
    }
}

/// The largest reorder distance among observations, zero if there is none.
pub open spec fn largest_distance(seen: Seq<(Observation, Timestamp)>) -> u32
    decreases seen.len(),
{
    if seen.len() == 0 {
        0
    } else {
        let before = largest_distance(seen.drop_last());
        match seen.last().0 {
            Observation::ReorderDistance { session: _, distance } => if distance > before {
                distance
            } else {
                before
            },
            _ => before,
        }
    }
}

/// When the latest data packet arrived, the one before the observations having come at
/// `prior`.
pub open spec fn latest_arrival(
    prior: Option<Timestamp>,
    seen: Seq<(Observation, Timestamp)>,
) -> Option<Timestamp>
    decreases seen.len(),
{
    if seen.len() == 0 {
        prior
    } else if seen.last().0 is DataPacketReceived {
        Some(seen.last().1)
    } else {
        latest_arrival(prior, seen.drop_last())
    }
}

/// The times between the arrivals of data packets, in milliseconds.
pub open spec fn gaps(prior: Option<Timestamp>, seen: Seq<(Observation, Timestamp)>) -> Seq<u32>
    decreases seen.len(),
{
    if seen.len() == 0 {
        seq![]
    } else {
        let before = gaps(prior, seen.drop_last());
        match latest_arrival(prior, seen.drop_last()) {
            Some(earlier) if seen.last().0 is DataPacketReceived => before.push(
                seen.last().1.since(earlier),
            ),
            _ => before,
        }
    }
}

/// The sum of times.
pub open spec fn total(times: Seq<u32>) -> nat
    decreases times.len(),
{
    if times.len() == 0 {
        0
    } else {
        total(times.drop_last()) + times.last() as nat
    }
}

/// The sum of the squares of times.
pub open spec fn total_squares(times: Seq<u32>) -> nat
    decreases times.len(),
{
    if times.len() == 0 {
        0
    } else {
        total_squares(times.drop_last()) + times.last() as nat * times.last() as nat
    }
}

/// What a counter of 32 bits shows of a total: nothing for zero, and no more than fits.
pub open spec fn shows32(slot: Option<u32>, total: nat) -> bool {
    match slot {
        None => total == 0,
        Some(n) => 0 < n && n as nat == (if total < u32::MAX {
            total
        } else {
            u32::MAX as nat
        }),
    }
}

/// What a counter of 64 bits shows of a total: nothing for zero, and no more than fits.
pub open spec fn shows64(slot: Option<u64>, total: nat) -> bool {
    match slot {
        None => total == 0,
        Some(n) => 0 < n && n as nat == (if total < u64::MAX {
            total
        } else {
            u64::MAX as nat
        }),
    }
}

/// What a sum of 64 bits shows of `count` samples: nothing if there is none, and no more
/// than fits.
pub open spec fn shows_sum(slot: Option<u64>, count: nat, total: nat) -> bool {
    match slot {
        None => count == 0 && total == 0,
        Some(n) => 0 < count && n as nat == (if total < u64::MAX {
            total
        } else {
            u64::MAX as nat
        }),
    }
}

/// Whether the window shows exactly the observations `seen`, the latest data packet before
/// them having come at `prior`.
pub open spec fn tallies(
    w: DataEntry,
    prior: Option<Timestamp>,
    seen: Seq<(Observation, Timestamp)>,
) -> bool {
    &&& shows64(w.bytes_sent, sum_of(seen, Measure::BytesSent))
    &&& shows64(w.bytes_received, sum_of(seen, Measure::BytesReceived))
    &&& shows32(w.data_packets_sent, sum_of(seen, Measure::DataPacketsSent))
    &&& shows32(w.data_packets_received, sum_of(seen, Measure::DataPacketsReceived))
    &&& shows32(w.parity_packets_sent, sum_of(seen, Measure::ParityPacketsSent))
    &&& shows32(w.parity_packets_received, sum_of(seen, Measure::ParityPacketsReceived))
    &&& shows32(w.retransmits_issued, sum_of(seen, Measure::RetransmitsIssued))
    &&& shows32(w.retransmits_served, sum_of(seen, Measure::RetransmitsServed))
    &&& shows32(w.retransmits_sent, sum_of(seen, Measure::RetransmitsSent))
    &&& shows32(w.recovered_packets, sum_of(seen, Measure::RecoveredPackets))
    &&& shows32(w.recovered_batches, sum_of(seen, Measure::RecoveredBatches))
    &&& shows32(w.unrecoverable_batches, sum_of(seen, Measure::UnrecoverableBatches))
    &&& shows32(w.wasted_parity, sum_of(seen, Measure::WastedParity))
    &&& shows32(w.holes_observed, sum_of(seen, Measure::HolesObserved))
    &&& shows32(w.longest_loss_burst, longest_burst(seen) as nat)
    &&& shows32(w.max_reorder_distance, largest_distance(seen) as nat)
    &&& shows_sum(
        w.recovery_latency_ms_sum,
        sum_of(seen, Measure::RecoveredBatches),
        sum_of(seen, Measure::RecoveryLatency),
    )
    &&& shows32(w.recovery_latency_count, sum_of(seen, Measure::RecoveredBatches))
    &&& shows_sum(
        w.batch_fill_latency_ms_sum,
        sum_of(seen, Measure::BatchFills),
        sum_of(seen, Measure::BatchFillLatency),
    )
    &&& shows32(w.batch_fill_latency_count, sum_of(seen, Measure::BatchFills))
    &&& shows_sum(
        w.retransmit_rtt_ms_sum,
        sum_of(seen, Measure::RetransmitRtts),
        sum_of(seen, Measure::RetransmitRtt),
    )
    &&& shows32(w.retransmit_rtt_count, sum_of(seen, Measure::RetransmitRtts))
    &&& shows_sum(w.inter_arrival_ms_sum, gaps(prior, seen).len(), total(gaps(prior, seen)))
    &&& shows_sum(
        w.inter_arrival_ms_sumsq,
        gaps(prior, seen).len(),
        total_squares(gaps(prior, seen)),
    )
    &&& shows32(w.inter_arrival_count, gaps(prior, seen).len())
    &&& shows32(w.send_ticks_busy, sum_of(seen, Measure::BusyTicks))
    &&& shows32(w.send_ticks_idle, sum_of(seen, Measure::IdleTicks))
    &&& w.paused_during_window == exists|i: int|
        0 <= i < seen.len() && (#[trigger] seen[i]).0 is Paused
    &&& w.seeked_during_window == exists|i: int|
        0 <= i < seen.len() && (#[trigger] seen[i]).0 is Seeked
    &&& w.address_rebind_seen == exists|i: int|
        0 <= i < seen.len() && (#[trigger] seen[i]).0 is AddressRebind
}

/// The session after observations, folded in the order in which they were made.
pub open spec fn gathered(s: SessionView, seen: Seq<(Observation, Timestamp)>) -> SessionView
    decreases seen.len(),
{
    if seen.len() == 0 {
        s
    } else {
        gathered(s, seen.drop_last()).folded(seen.last().0, seen.last().1)
    }
}

/// Whether the observations neither open nor close a session.
pub open spec fn within_session(seen: Seq<(Observation, Timestamp)>) -> bool {
    forall|i: int|
        0 <= i < seen.len() ==> !((#[trigger] seen[i]).0 is SessionOpened)
            && !(seen[i].0 is SessionClosed)
}

proof fn lemma_flags(seen: Seq<(Observation, Timestamp)>)
    requires
        seen.len() > 0,
    ensures
        (exists|i: int| 0 <= i < seen.len() && (#[trigger] seen[i]).0 is Paused) == (
        seen.last().0 is Paused || exists|i: int|
            0 <= i < seen.drop_last().len() && (#[trigger] seen.drop_last()[i]).0 is Paused),
        (exists|i: int| 0 <= i < seen.len() && (#[trigger] seen[i]).0 is Seeked) == (
        seen.last().0 is Seeked || exists|i: int|
            0 <= i < seen.drop_last().len() && (#[trigger] seen.drop_last()[i]).0 is Seeked),
        (exists|i: int| 0 <= i < seen.len() && (#[trigger] seen[i]).0 is AddressRebind) == (
        seen.last().0 is AddressRebind || exists|i: int|
            0 <= i < seen.drop_last().len()
                && (#[trigger] seen.drop_last()[i]).0 is AddressRebind),
{
    let before = seen.drop_last();
    assert forall|i: int| 0 <= i < before.len() implies #[trigger] before[i] == seen[i] by {}
    assert(seen[seen.len() - 1] == seen.last());
    if exists|i: int| 0 <= i < before.len() && (#[trigger] before[i]).0 is Paused {
        let i = choose|i: int| 0 <= i < before.len() && (#[trigger] before[i]).0 is Paused;
        assert(seen[i].0 is Paused);
    }
    if exists|i: int| 0 <= i < before.len() && (#[trigger] before[i]).0 is Seeked {
        let i = choose|i: int| 0 <= i < before.len() && (#[trigger] before[i]).0 is Seeked;
        assert(seen[i].0 is Seeked);
    }
    if exists|i: int| 0 <= i < before.len() && (#[trigger] before[i]).0 is AddressRebind {
        let i = choose|i: int| 0 <= i < before.len() && (#[trigger] before[i]).0 is AddressRebind;
        assert(seen[i].0 is AddressRebind);
    }
    if exists|i: int| 0 <= i < seen.len() && (#[trigger] seen[i]).0 is Paused {
        let i = choose|i: int| 0 <= i < seen.len() && (#[trigger] seen[i]).0 is Paused;
        assert(i < before.len() ==> before[i].0 is Paused);
    }
    if exists|i: int| 0 <= i < seen.len() && (#[trigger] seen[i]).0 is Seeked {
        let i = choose|i: int| 0 <= i < seen.len() && (#[trigger] seen[i]).0 is Seeked;
        assert(i < before.len() ==> before[i].0 is Seeked);
    }
    if exists|i: int| 0 <= i < seen.len() && (#[trigger] seen[i]).0 is AddressRebind {
        let i = choose|i: int| 0 <= i < seen.len() && (#[trigger] seen[i]).0 is AddressRebind;
        assert(i < before.len() ==> before[i].0 is AddressRebind);
    }
}

proof fn lemma_gap(prior: Option<Timestamp>, seen: Seq<(Observation, Timestamp)>)
    requires
        seen.len() > 0,
    ensures
        ({
            let before = gaps(prior, seen.drop_last());
            let after = gaps(prior, seen);
            match latest_arrival(prior, seen.drop_last()) {
                Some(earlier) if seen.last().0 is DataPacketReceived => {
                    let gap = seen.last().1.since(earlier);
                    &&& after.len() == before.len() + 1
                    &&& total(after) == total(before) + gap as nat
                    &&& total_squares(after) == total_squares(before) + gap as nat * gap as nat
                },
                _ => after == before,
            }
        }),
{
    let before = gaps(prior, seen.drop_last());
    let after = gaps(prior, seen);
    if after.len() > before.len() {
        assert(after.drop_last() =~= before);
    }
}

proof fn lemma_square(gap: u32)
    ensures
        0 <= gap as nat * gap as nat <= u64::MAX,
        (gap * gap) as u64 == gap as nat * gap as nat,
{
    assert(0 <= gap as nat * gap as nat <= 0xffff_ffff * 0xffff_ffff) by (nonlinear_arith)
        requires
            0 <= gap <= 0xffff_ffff,
    ;
}

proof fn lemma_blank(w: DataEntry, prior: Option<Timestamp>, seen: Seq<(Observation, Timestamp)>)
    requires
        seen.len() == 0,
        exists|session: SessionId, identity: SessionIdentity, now: Timestamp|
            w == #[trigger] DataEntry::opened(session, identity, now),
    ensures
        tallies(w, prior, seen),
{
    assert(gaps(prior, seen) =~= seq![]);
}

#[verifier::rlimit(40)]
#[verifier::spinoff_prover]
proof fn lemma_with(
    w: DataEntry,
    prior: Option<Timestamp>,
    seen: Seq<(Observation, Timestamp)>,
)
    requires
        seen.len() > 0,
        !(seen.last().0 is SessionOpened),
        !(seen.last().0 is SessionClosed),
        !(seen.last().0 is DataPacketReceived),
        tallies(w, prior, seen.drop_last()),
    ensures
        tallies(w.with(seen.last().0), prior, seen),
{
    lemma_flags(seen);
    lemma_gap(prior, seen);
    let obs = seen.last().0;
    match obs {
        Observation::BytesSent { session: _, bytes } => {},
        Observation::BytesReceived { session: _, bytes } => {},
        Observation::DataPacketSent { session: _ } => {},
        Observation::ParityPacketSent { session: _ } => {},
        Observation::ParityPacketReceived { session: _ } => {},
        Observation::RetransmitIssued { session: _, count } => {},
        Observation::RetransmitServed { session: _, count } => {},
        Observation::RetransmitSent { session: _, count } => {},
        Observation::PacketsRecovered { session: _, count } => {},
        Observation::BatchRecovered { session: _, latency_ms } => {},
        Observation::BatchUnrecoverable { session: _ } => {},
        Observation::WastedParity { session: _, count } => {},
        Observation::HolesObserved { session: _, count } => {},
        Observation::LossBurst { session: _, length } => {},
        Observation::ReorderDistance { session: _, distance } => {},
        Observation::BatchFillLatency { session: _, latency_ms } => {},
        Observation::RetransmitRtt { session: _, rtt_ms } => {},
        Observation::SendTick { session: _, emitted } => {},
        _ => {},
    }
}

#[verifier::spinoff_prover]
proof fn lemma_with_arrival(
    w: DataEntry,
    first_byte: Option<u32>,
    prior: Option<Timestamp>,
    seen: Seq<(Observation, Timestamp)>,
)
    requires
        seen.len() > 0,
        seen.last().0 is DataPacketReceived,
        tallies(w, prior, seen.drop_last()),
    ensures
        tallies(
            w.with_arrival(first_byte, latest_arrival(prior, seen.drop_last()), seen.last().1),
            prior,
            seen,
        ),
{
    lemma_flags(seen);
    lemma_gap(prior, seen);
    match latest_arrival(prior, seen.drop_last()) {
        Some(earlier) => {
            lemma_square(seen.last().1.since(earlier));
        },
        None => {},
    }
}

proof fn lemma_step(
    s: SessionView,
    prior: Option<Timestamp>,
    seen: Seq<(Observation, Timestamp)>,
)
    requires
        seen.len() > 0,
        s.identity is Some,
        !(seen.last().0 is SessionOpened),
        !(seen.last().0 is SessionClosed),
        s.last_arrival == latest_arrival(prior, seen.drop_last()),
        s.current is None ==> seen.drop_last().len() == 0,
        s.current matches Some(w) ==> tallies(w, prior, seen.drop_last()),
    ensures
        s.folded(seen.last().0, seen.last().1).current matches Some(w) && tallies(w, prior, seen),
{
    let obs = seen.last().0;
    let now = seen.last().1;
    let before = s.identity->0;
    if obs is DataPacketReceived {
        let identity = s.identity_on_arrival(before, now);
        let w = s.window(obs.of_session(), identity, now);
        if s.current is None {
            lemma_blank(w, prior, seen.drop_last());
        }
        lemma_with_arrival(w, identity.request_to_first_byte_ms, prior, seen);
    } else {
        let w = s.window(obs.of_session(), before, now);
        if s.current is None {
            lemma_blank(w, prior, seen.drop_last());
        }
        lemma_with(w, prior, seen);
    }
}

/// While a session is open, its window shows exactly what was observed since the window was
/// opened: each counter is the sum of what the observations say, as far as it fits; each
/// maximum is their maximum; each flag is set if one of them sets it; and the times between
/// data packets are summed, also squared.
pub proof fn windows_sum_what_was_observed(s: SessionView, seen: Seq<(Observation, Timestamp)>)
    requires
        s.identity is Some,
        s.current matches Some(w) ==> tallies(w, s.last_arrival, seq![]),
        within_session(seen),
    ensures
        gathered(s, seen).identity is Some,
        gathered(s, seen).last_arrival == latest_arrival(s.last_arrival, seen),
        seen.len() > 0 ==> gathered(s, seen).current is Some,
        gathered(s, seen).current matches Some(w) ==> tallies(w, s.last_arrival, seen),
        gathered(s, seen).completed == s.completed,
    decreases seen.len(),
{
    if seen.len() == 0 {
        assert(seen =~= seq![]);
    } else {
        let before = seen.drop_last();
        assert forall|i: int| 0 <= i < before.len() implies !((#[trigger] before[i]).0
            is SessionOpened) && !(before[i].0 is SessionClosed) by {
            assert(before[i] == seen[i]);
        }
        windows_sum_what_was_observed(s, before);
        assert(seen[seen.len() - 1] == seen.last());
        lemma_step(gathered(s, before), s.last_arrival, seen);
    }
}

/// The window that a session has when it is opened, and the one that takes the place of a
/// closed window, shows that nothing was observed yet, starts where it was opened and
/// carries what is known of the session.
pub proof fn new_windows_are_blank(s: SessionView, obs: Observation, now: Timestamp)
    ensures
        obs matches Observation::SessionOpened {
            session,
            local_addr_hash,
            remote_addr_hash,
            fec_config,
        } ==> s.current is None ==> (s.folded(obs, now).current matches Some(w) && tallies(
            w,
            s.folded(obs, now).last_arrival,
            seq![],
        ) && w.session_id == session && w.window_start == now && w.local_addr_hash
            == local_addr_hash && w.remote_addr_hash == remote_addr_hash && w.fec_config
            == fec_config && w.request_to_first_byte_ms is None && w.buffer_head is None
            && w.buffer_len is None && w.last_activity_gap_ms is None),
        s.current is Some && s.identity is Some ==> (s.rotated(
            obs.of_session(),
            now,
        ).current matches Some(w) && tallies(
            w,
            s.rotated(obs.of_session(), now).last_arrival,
            seq![],
        ) && w.session_id == obs.of_session() && w.window_start == now && w.local_addr_hash
            == s.identity->0.local_addr_hash && w.remote_addr_hash
            == s.identity->0.remote_addr_hash && w.fec_config == s.identity->0.fec_config
            && w.request_to_first_byte_ms == s.identity->0.request_to_first_byte_ms),
{
    let none: Seq<(Observation, Timestamp)> = seq![];
    assert(gaps(s.last_arrival, none) =~= seq![]);
}

/// Closing a window keeps everything that it shows, sets its end, and puts it behind the
/// windows that wait.
pub proof fn closed_windows_keep_their_tally(
    s: SessionView,
    prior: Option<Timestamp>,
    seen: Seq<(Observation, Timestamp)>,
    now: Timestamp,
)
    requires
        s.current matches Some(w) && tallies(w, prior, seen),
    ensures
        s.flushed(now).current is None,
        s.flushed(now).completed.len() == s.completed.len() + 1,
        forall|i: int|
            0 <= i < s.completed.len() ==> s.flushed(now).completed[i] == s.completed[i],
        ({
            let w = s.current->0;
            let closed = s.flushed(now).completed.last();
            &&& tallies(closed, prior, seen)
            &&& closed.session_id == w.session_id
            &&& closed.window_start == w.window_start
            &&& closed.window_end == now
            &&& closed.local_addr_hash == w.local_addr_hash
            &&& closed.remote_addr_hash == w.remote_addr_hash
            &&& closed.fec_config == w.fec_config
            &&& closed.request_to_first_byte_ms == w.request_to_first_byte_ms
            &&& closed.buffer_head == w.buffer_head
            &&& closed.buffer_len == w.buffer_len
            &&& s.last_arrival matches Some(last) ==> closed.last_activity_gap_ms == Some(
                now.since(last),
            )
            &&& s.last_arrival is None ==> closed.last_activity_gap_ms == w.last_activity_gap_ms
        }),
{
}

/// A window shows the latest state of the buffer that was observed, and the time to the
/// first byte from the first data packet on.
pub proof fn windows_show_the_latest_state(s: SessionView, obs: Observation, now: Timestamp)
    requires
        s.identity is Some,
        !(obs is SessionOpened),
        !(obs is SessionClosed),
    ensures
        ({
            let after = s.folded(obs, now).current->0;
            let before = match s.current {
                Some(w) => (w.buffer_head, w.buffer_len, w.last_activity_gap_ms),
                None => (None, None, None),
            };
            match obs {
                Observation::BufferState { session: _, head, len } => {
                    &&& after.buffer_head == Some(head)
                    &&& len > 0 ==> after.buffer_len == Some(len)
                    &&& len == 0 ==> after.buffer_len == before.1
                    &&& after.last_activity_gap_ms == before.2
                },
                Observation::LastActivityGap { session: _, gap_ms } => {
                    &&& after.last_activity_gap_ms == Some(gap_ms)
                    &&& after.buffer_head == before.0
                    &&& after.buffer_len == before.1
                },
                Observation::DataPacketReceived { session: _ } => {
                    &&& after.buffer_head == before.0
                    &&& after.buffer_len == before.1
                    &&& after.last_activity_gap_ms == before.2
                    &&& s.last_arrival is None && s.identity->0.request_to_first_byte_ms is None && (
                    s.current matches Some(w) ==> w.request_to_first_byte_ms is None) ==> (
                    now.since(s.identity->0.opened_at) > 0 ==> after.request_to_first_byte_ms
                        == Some(now.since(s.identity->0.opened_at)))
                },
                _ => {
                    &&& after.buffer_head == before.0
                    &&& after.buffer_len == before.1
                    &&& after.last_activity_gap_ms == before.2
                },
            }
        }),
{
}

/// Opening a session makes its later observations count, and closing it makes them count no
/// more: the window that was open then waits to be drained.
pub proof fn sessions_open_and_close(
    s: SessionView,
    session: SessionId,
    local_addr_hash: [u8; 8],
    remote_addr_hash: [u8; 8],
    fec_config: crate::manager::ranges::FecConfig,
    now: Timestamp,
)
    ensures
        ({
            let opened = s.folded(
                Observation::SessionOpened {
                    session,
                    local_addr_hash,
                    remote_addr_hash,
                    fec_config,
                },
                now,
            );
            &&& opened.identity matches Some(i) && i.opened_at == now && i.local_addr_hash
                == local_addr_hash && i.remote_addr_hash == remote_addr_hash && i.fec_config
                == fec_config
            &&& opened.current is Some
            &&& s.current is Some ==> opened.current == s.current
            &&& opened.completed == s.completed
        }),
        ({
            let closed = s.folded(Observation::SessionClosed { session }, now);
            &&& closed.identity is None
            &&& closed.last_arrival is None
            &&& closed.current is None
            &&& closed.completed.len() == s.completed.len() + (if s.current is Some {
                1int
            } else {
                0
            })
            &&& s.current matches Some(w) ==> closed.completed.last().window_start
                == w.window_start && closed.completed.last().window_end == now
                && closed.completed.last().bytes_sent == w.bytes_sent
                && closed.completed.last().bytes_received == w.bytes_received
        }),
{
}

/// Windows that were taken are gone, and nothing else of the session is.
pub proof fn taken_windows_are_gone(s: SessionView)
    ensures
        s.drained().completed.len() == 0,
        s.drained().current == s.current,
        s.drained().identity == s.identity,
        s.drained().last_arrival == s.last_arrival,
{
}

} // verus!
