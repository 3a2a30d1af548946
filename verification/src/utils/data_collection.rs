//! Measurements of streams, gathered in windows per session.
//!
//! Every layer reports what it sees as an [`Observation`]. The collector folds
//! the observations of a session into the session's open window; windows are
//! closed at regular ticks, when the session ends and when they are asked for, and
//! closed windows wait until they are drained. Observations of a session that has
//! not been opened are dropped.
use vstd::prelude::*;

use crate::manager::fields::SessionId;
use crate::manager::ranges::FecConfig;
use crate::manager::types::Timestamp;
use crate::utils::random;
use crate::utils::table::Table;
use crate::wire;

verus! {

/// Milliseconds after which windows are closed.
pub const WINDOW_MS: u64 = 500;

/// One window of measurements of one session. A measurement of which nothing was
/// observed is `None`; a counter is never zero.
#[derive(Debug, Clone, Copy)]
pub struct DataEntry {
    /// The session; the same at both of its ends.
    pub session_id: SessionId,
    /// When the window was opened, on the local clock.
    pub window_start: Timestamp,
    /// When the window was closed, on the local clock.
    pub window_end: Timestamp,
    /// Tag of this peer's port.
    pub local_addr_hash: [u8; 8],
    /// Tag of the other peer's address as it was when the session was opened.
    pub remote_addr_hash: [u8; 8],
    /// The recovery scheme of the stream.
    pub fec_config: FecConfig,
    /// Milliseconds from the opening of the session to the first data packet.
    pub request_to_first_byte_ms: Option<u32>,
    /// Payload bytes sent.
    pub bytes_sent: Option<u64>,
    /// Payload bytes received.
    pub bytes_received: Option<u64>,
    /// Data packets sent.
    pub data_packets_sent: Option<u32>,
    /// Data packets received.
    pub data_packets_received: Option<u32>,
    /// Parity packets sent.
    pub parity_packets_sent: Option<u32>,
    /// Parity packets received.
    pub parity_packets_received: Option<u32>,
    /// Chunks this peer asked to be sent again.
    pub retransmits_issued: Option<u32>,
    /// Ranges the other peer asked to be sent again.
    pub retransmits_served: Option<u32>,
    /// Data packets sent again.
    pub retransmits_sent: Option<u32>,
    /// Packets recovered from parity.
    pub recovered_packets: Option<u32>,
    /// Batches recovered from parity.
    pub recovered_batches: Option<u32>,
    /// Batches that parity could not recover.
    pub unrecoverable_batches: Option<u32>,
    /// Parity packets for batches that were complete.
    pub wasted_parity: Option<u32>,
    /// Missing chunks seen.
    pub holes_observed: Option<u32>,
    /// Longest run of missing chunks.
    pub longest_loss_burst: Option<u32>,
    /// Largest gap between a packet and the latest one before it.
    pub max_reorder_distance: Option<u32>,
    /// Sum of the times that recoveries took.
    pub recovery_latency_ms_sum: Option<u64>,
    /// Number of recoveries in the sum.
    pub recovery_latency_count: Option<u32>,
    /// Sum of the times that batches took to fill.
    pub batch_fill_latency_ms_sum: Option<u64>,
    /// Number of batches in the sum.
    pub batch_fill_latency_count: Option<u32>,
    /// Sum of the times from asking for a chunk to its arrival.
    pub retransmit_rtt_ms_sum: Option<u64>,
    /// Number of chunks in the sum.
    pub retransmit_rtt_count: Option<u32>,
    /// Sum of the times between data packets.
    pub inter_arrival_ms_sum: Option<u64>,
    /// Sum of the squares of the times between data packets.
    pub inter_arrival_ms_sumsq: Option<u64>,
    /// Number of times in the sums.
    pub inter_arrival_count: Option<u32>,
    /// Latest read position of the receiver's buffer.
    pub buffer_head: Option<u64>,
    /// Length of the receiver's buffer.
    pub buffer_len: Option<u64>,
    /// Milliseconds since the last data packet, when the window was closed.
    pub last_activity_gap_ms: Option<u32>,
    /// Ticks on which something was sent.
    pub send_ticks_busy: Option<u32>,
    /// Ticks on which nothing was sent.
    pub send_ticks_idle: Option<u32>,
    /// Whether the stream was paused.
    pub paused_during_window: bool,
    /// Whether the stream was sought in.
    pub seeked_during_window: bool,
    /// Whether the peer's address changed.
    pub address_rebind_seen: bool,
}

/// What is known of a session for as long as it is open.
#[derive(Debug, Clone, Copy)]
pub struct SessionIdentity {
    pub local_addr_hash: [u8; 8],
    pub remote_addr_hash: [u8; 8],
    pub fec_config: FecConfig,
    /// When the session was opened, on the local clock.
    pub opened_at: Timestamp,
    /// Milliseconds from the opening to the first data packet.
    pub request_to_first_byte_ms: Option<u32>,
}

/// Something that a layer saw.
#[derive(Debug, Clone, Copy)]
pub enum Observation {
    /// The session carries a stream from now on.
    SessionOpened {
        session: SessionId,
        local_addr_hash: [u8; 8],
        remote_addr_hash: [u8; 8],
        fec_config: FecConfig,
    },
    /// The session carries no stream any more.
    SessionClosed { session: SessionId },
    /// A data packet was received.
    DataPacketReceived { session: SessionId },
    /// Payload bytes were sent.
    BytesSent { session: SessionId, bytes: u64 },
    /// Payload bytes were received.
    BytesReceived { session: SessionId, bytes: u64 },
    /// A data packet was sent.
    DataPacketSent { session: SessionId },
    /// A parity packet was sent.
    ParityPacketSent { session: SessionId },
    /// A parity packet was received.
    ParityPacketReceived { session: SessionId },
    /// Chunks were asked for again.
    RetransmitIssued { session: SessionId, count: u32 },
    /// Ranges were asked for by the peer.
    RetransmitServed { session: SessionId, count: u32 },
    /// Data packets were sent again.
    RetransmitSent { session: SessionId, count: u32 },
    /// Packets were recovered from parity.
    PacketsRecovered { session: SessionId, count: u32 },
    /// A batch was recovered, this long after its first packet.
    BatchRecovered { session: SessionId, latency_ms: u32 },
    /// A batch was given up.
    BatchUnrecoverable { session: SessionId },
    /// Parity came for a complete batch.
    WastedParity { session: SessionId, count: u32 },
    /// Missing chunks were seen.
    HolesObserved { session: SessionId, count: u32 },
    /// A run of missing chunks ended.
    LossBurst { session: SessionId, length: u32 },
    /// A packet came this far behind the latest one.
    ReorderDistance { session: SessionId, distance: u32 },
    /// A batch took this long to fill.
    BatchFillLatency { session: SessionId, latency_ms: u32 },
    /// A chunk arrived this long after it was asked for.
    RetransmitRtt { session: SessionId, rtt_ms: u32 },
    /// The receiver's buffer moved.
    BufferState { session: SessionId, head: u64, len: u64 },
    /// Time since the last packet.
    LastActivityGap { session: SessionId, gap_ms: u32 },
    /// The sender had its turn.
    SendTick { session: SessionId, emitted: bool },
    /// The stream was paused.
    Paused { session: SessionId },
    /// The stream was sought in.
    Seeked { session: SessionId },
    /// The peer's address changed.
    AddressRebind { session: SessionId },
}

impl Observation {
    /// The session that the observation is of.
    pub open spec fn of_session(self) -> SessionId {
        match self {
            Observation::SessionOpened { session, .. } => session,
            Observation::SessionClosed { session } => session,
            Observation::DataPacketReceived { session } => session,
            Observation::BytesSent { session, .. } => session,
            Observation::BytesReceived { session, .. } => session,
            Observation::DataPacketSent { session } => session,
            Observation::ParityPacketSent { session } => session,
            Observation::ParityPacketReceived { session } => session,
            Observation::RetransmitIssued { session, .. } => session,
            Observation::RetransmitServed { session, .. } => session,
            Observation::RetransmitSent { session, .. } => session,
            Observation::PacketsRecovered { session, .. } => session,
            Observation::BatchRecovered { session, .. } => session,
            Observation::BatchUnrecoverable { session } => session,
            Observation::WastedParity { session, .. } => session,
            Observation::HolesObserved { session, .. } => session,
            Observation::LossBurst { session, .. } => session,
            Observation::ReorderDistance { session, .. } => session,
            Observation::BatchFillLatency { session, .. } => session,
            Observation::RetransmitRtt { session, .. } => session,
            Observation::BufferState { session, .. } => session,
            Observation::LastActivityGap { session, .. } => session,
            Observation::SendTick { session, .. } => session,
            Observation::Paused { session } => session,
            Observation::Seeked { session } => session,
            Observation::AddressRebind { session } => session,
        }
    }
}

/// A counter with `delta` more; it stays what it is when nothing is added.
pub open spec fn bumped32(slot: Option<u32>, delta: u32) -> Option<u32> {
    if delta == 0 {
        slot
    } else {
        let total = (match slot {
            Some(n) => n,
            None => 0u32,
        }) + delta;
        Some(
            if total > u32::MAX {
                u32::MAX
            } else {
                total as u32
            },
        )
    }
}

/// A counter with `delta` more; it stays what it is when nothing is added.
pub open spec fn bumped64(slot: Option<u64>, delta: u64) -> Option<u64> {
    if delta == 0 {
        slot
    } else {
        added64(slot, delta)
    }
}

/// A sum with `delta` more.
pub open spec fn added64(slot: Option<u64>, delta: u64) -> Option<u64> {
    let total = (match slot {
        Some(n) => n,
        None => 0u64,
    }) + delta;
    Some(
        if total > u64::MAX {
            u64::MAX
        } else {
            total as u64
        },
    )
}

/// The larger of a maximum and a candidate; zero is no candidate.
pub open spec fn maxed32(slot: Option<u32>, candidate: u32) -> Option<u32> {
    if candidate == 0 {
        slot
    } else {
        match slot {
            Some(n) => if n > candidate {
                slot
            } else {
                Some(candidate)
            },
            None => Some(candidate),
        }
    }
}

/// The latest sample that is not zero.
pub open spec fn latest64(slot: Option<u64>, sample: u64) -> Option<u64> {
    if sample == 0 {
        slot
    } else {
        Some(sample)
    }
}

/// A number, or nothing for zero.
pub open spec fn nonzero(n: u32) -> Option<u32> {
    if n == 0 {
        None
    } else {
        Some(n)
    }
}

fn bump_nz32(slot: &mut Option<u32>, delta: u32)
    ensures
        *final(slot) == bumped32(*old(slot), delta),
{
    if delta != 0 {
        let current: u32 = match *slot {
            Some(n) => n,
            None => 0,
        };
        *slot = Some(current.saturating_add(delta));
    }
}

fn bump_nz64(slot: &mut Option<u64>, delta: u64)
    ensures
        *final(slot) == bumped64(*old(slot), delta),
{
    if delta != 0 {
        add_opt(slot, delta);
    }
}

fn add_opt(slot: &mut Option<u64>, delta: u64)
    ensures
        *final(slot) == added64(*old(slot), delta),
{
    let current: u64 = match *slot {
        Some(n) => n,
        None => 0,
    };
    *slot = Some(current.saturating_add(delta));
}

fn max_nz32(slot: &mut Option<u32>, candidate: u32)
    ensures
        *final(slot) == maxed32(*old(slot), candidate),
{
    if candidate != 0 {
        let larger: bool = match *slot {
            Some(n) => n > candidate,
            None => false,
        };
        if !larger {
            *slot = Some(candidate);
        }
    }
}

fn latest_nz64(slot: &mut Option<u64>, sample: u64)
    ensures
        *final(slot) == latest64(*old(slot), sample),
{
    if sample != 0 {
        *slot = Some(sample);
    }
}

impl DataEntry {
    /// A window that was just opened.
    pub open spec fn opened(
        session_id: SessionId,
        identity: SessionIdentity,
        window_start: Timestamp,
    ) -> DataEntry {
        DataEntry {
            session_id,
            window_start,
            window_end: window_start,
            local_addr_hash: identity.local_addr_hash,
            remote_addr_hash: identity.remote_addr_hash,
            fec_config: identity.fec_config,
            request_to_first_byte_ms: identity.request_to_first_byte_ms,
            bytes_sent: None,
            bytes_received: None,
            data_packets_sent: None,
            data_packets_received: None,
            parity_packets_sent: None,
            parity_packets_received: None,
            retransmits_issued: None,
            retransmits_served: None,
            retransmits_sent: None,
            recovered_packets: None,
            recovered_batches: None,
            unrecoverable_batches: None,
            wasted_parity: None,
            holes_observed: None,
            longest_loss_burst: None,
            max_reorder_distance: None,
            recovery_latency_ms_sum: None,
            recovery_latency_count: None,
            batch_fill_latency_ms_sum: None,
            batch_fill_latency_count: None,
            retransmit_rtt_ms_sum: None,
            retransmit_rtt_count: None,
            inter_arrival_ms_sum: None,
            inter_arrival_ms_sumsq: None,
            inter_arrival_count: None,
            buffer_head: None,
            buffer_len: None,
            last_activity_gap_ms: None,
            send_ticks_busy: None,
            send_ticks_idle: None,
            paused_during_window: false,
            seeked_during_window: false,
            address_rebind_seen: false,
        }
    }

    fn new(session_id: SessionId, identity: SessionIdentity, window_start: Timestamp) -> (e: Self)
        ensures
            e == DataEntry::opened(session_id, identity, window_start),
    {
        DataEntry {
            session_id,
            window_start,
            window_end: window_start,
            local_addr_hash: identity.local_addr_hash,
            remote_addr_hash: identity.remote_addr_hash,
            fec_config: identity.fec_config,
            request_to_first_byte_ms: identity.request_to_first_byte_ms,
            bytes_sent: None,
            bytes_received: None,
            data_packets_sent: None,
            data_packets_received: None,
            parity_packets_sent: None,
            parity_packets_received: None,
            retransmits_issued: None,
            retransmits_served: None,
            retransmits_sent: None,
            recovered_packets: None,
            recovered_batches: None,
            unrecoverable_batches: None,
            wasted_parity: None,
            holes_observed: None,
            longest_loss_burst: None,
            max_reorder_distance: None,
            recovery_latency_ms_sum: None,
            recovery_latency_count: None,
            batch_fill_latency_ms_sum: None,
            batch_fill_latency_count: None,
            retransmit_rtt_ms_sum: None,
            retransmit_rtt_count: None,
            inter_arrival_ms_sum: None,
            inter_arrival_ms_sumsq: None,
            inter_arrival_count: None,
            buffer_head: None,
            buffer_len: None,
            last_activity_gap_ms: None,
            send_ticks_busy: None,
            send_ticks_idle: None,
            paused_during_window: false,
            seeked_during_window: false,
            address_rebind_seen: false,
        }
    }

    /// The window with one more observation. What opens and closes sessions, and the
    /// arrival of data, is not for the window alone.
    pub open spec fn with(self, obs: Observation) -> DataEntry {
        match obs {
            Observation::BytesSent { session: _, bytes } => DataEntry {
                bytes_sent: bumped64(self.bytes_sent, bytes),
                ..self
            },
            Observation::BytesReceived { session: _, bytes } => DataEntry {
                bytes_received: bumped64(self.bytes_received, bytes),
                ..self
            },
            Observation::DataPacketSent { session: _ } => DataEntry {
                data_packets_sent: bumped32(self.data_packets_sent, 1),
                ..self
            },
            Observation::ParityPacketSent { session: _ } => DataEntry {
                parity_packets_sent: bumped32(self.parity_packets_sent, 1),
                ..self
            },
            Observation::ParityPacketReceived { session: _ } => DataEntry {
                parity_packets_received: bumped32(self.parity_packets_received, 1),
                ..self
            },
            Observation::RetransmitIssued { session: _, count } => DataEntry {
                retransmits_issued: bumped32(self.retransmits_issued, count),
                ..self
            },
            Observation::RetransmitServed { session: _, count } => DataEntry {
                retransmits_served: bumped32(self.retransmits_served, count),
                ..self
            },
            Observation::RetransmitSent { session: _, count } => DataEntry {
                retransmits_sent: bumped32(self.retransmits_sent, count),
                ..self
            },
            Observation::PacketsRecovered { session: _, count } => DataEntry {
                recovered_packets: bumped32(self.recovered_packets, count),
                ..self
            },
            Observation::BatchRecovered { session: _, latency_ms } => DataEntry {
                recovered_batches: bumped32(self.recovered_batches, 1),
                recovery_latency_ms_sum: added64(self.recovery_latency_ms_sum, latency_ms as u64),
                recovery_latency_count: bumped32(self.recovery_latency_count, 1),
                ..self
            },
            Observation::BatchUnrecoverable { session: _ } => DataEntry {
                unrecoverable_batches: bumped32(self.unrecoverable_batches, 1),
                ..self
            },
            Observation::WastedParity { session: _, count } => DataEntry {
                wasted_parity: bumped32(self.wasted_parity, count),
                ..self
            },
            Observation::HolesObserved { session: _, count } => DataEntry {
                holes_observed: bumped32(self.holes_observed, count),
                ..self
            },
            Observation::LossBurst { session: _, length } => DataEntry {
                longest_loss_burst: maxed32(self.longest_loss_burst, length),
                ..self
            },
            Observation::ReorderDistance { session: _, distance } => DataEntry {
                max_reorder_distance: maxed32(self.max_reorder_distance, distance),
                ..self
            },
            Observation::BatchFillLatency { session: _, latency_ms } => DataEntry {
                batch_fill_latency_ms_sum: added64(self.batch_fill_latency_ms_sum, latency_ms as u64),
                batch_fill_latency_count: bumped32(self.batch_fill_latency_count, 1),
                ..self
            },
            Observation::RetransmitRtt { session: _, rtt_ms } => DataEntry {
                retransmit_rtt_ms_sum: added64(self.retransmit_rtt_ms_sum, rtt_ms as u64),
                retransmit_rtt_count: bumped32(self.retransmit_rtt_count, 1),
                ..self
            },
            Observation::BufferState { session: _, head, len } => DataEntry {
                buffer_head: Some(head),
                buffer_len: latest64(self.buffer_len, len),
                ..self
            },
            Observation::LastActivityGap { session: _, gap_ms } => DataEntry {
                last_activity_gap_ms: Some(gap_ms),
                ..self
            },
            Observation::SendTick { session: _, emitted } => if emitted {
                DataEntry { send_ticks_busy: bumped32(self.send_ticks_busy, 1), ..self }
            } else {
                DataEntry { send_ticks_idle: bumped32(self.send_ticks_idle, 1), ..self }
            },
            Observation::Paused { session: _ } => DataEntry {
                paused_during_window: true,
                ..self
            },
            Observation::Seeked { session: _ } => DataEntry {
                seeked_during_window: true,
                ..self
            },
            Observation::AddressRebind { session: _ } => DataEntry {
                address_rebind_seen: true,
                ..self
            },
            _ => self,
        }
    }

    fn observe(&mut self, obs: Observation)
        ensures
            *final(self) == old(self).with(obs),
    {
        match obs {
            Observation::BytesSent { session: _, bytes } => {
                bump_nz64(&mut self.bytes_sent, bytes);
            },
            Observation::BytesReceived { session: _, bytes } => {
                bump_nz64(&mut self.bytes_received, bytes);
            },
            Observation::DataPacketSent { session: _ } => {
                bump_nz32(&mut self.data_packets_sent, 1);
            },
            Observation::ParityPacketSent { session: _ } => {
                bump_nz32(&mut self.parity_packets_sent, 1);
            },
            Observation::ParityPacketReceived { session: _ } => {
                bump_nz32(&mut self.parity_packets_received, 1);
            },
            Observation::RetransmitIssued { session: _, count } => {
                bump_nz32(&mut self.retransmits_issued, count);
            },
            Observation::RetransmitServed { session: _, count } => {
                bump_nz32(&mut self.retransmits_served, count);
            },
            Observation::RetransmitSent { session: _, count } => {
                bump_nz32(&mut self.retransmits_sent, count);
            },
            Observation::PacketsRecovered { session: _, count } => {
                bump_nz32(&mut self.recovered_packets, count);
            },
            Observation::BatchRecovered { session: _, latency_ms } => {
                bump_nz32(&mut self.recovered_batches, 1);
                add_opt(&mut self.recovery_latency_ms_sum, latency_ms as u64);
                bump_nz32(&mut self.recovery_latency_count, 1);
            },
            Observation::BatchUnrecoverable { session: _ } => {
                bump_nz32(&mut self.unrecoverable_batches, 1);
            },
            Observation::WastedParity { session: _, count } => {
                bump_nz32(&mut self.wasted_parity, count);
            },
            Observation::HolesObserved { session: _, count } => {
                bump_nz32(&mut self.holes_observed, count);
            },
            Observation::LossBurst { session: _, length } => {
                max_nz32(&mut self.longest_loss_burst, length);
            },
            Observation::ReorderDistance { session: _, distance } => {
                max_nz32(&mut self.max_reorder_distance, distance);
            },
            Observation::BatchFillLatency { session: _, latency_ms } => {
                add_opt(&mut self.batch_fill_latency_ms_sum, latency_ms as u64);
                bump_nz32(&mut self.batch_fill_latency_count, 1);
            },
            Observation::RetransmitRtt { session: _, rtt_ms } => {
                add_opt(&mut self.retransmit_rtt_ms_sum, rtt_ms as u64);
                bump_nz32(&mut self.retransmit_rtt_count, 1);
            },
            Observation::BufferState { session: _, head, len } => {
                self.buffer_head = Some(head);
                latest_nz64(&mut self.buffer_len, len);
            },
            Observation::LastActivityGap { session: _, gap_ms } => {
                self.last_activity_gap_ms = Some(gap_ms);
            },
            Observation::SendTick { session: _, emitted } => {
                if emitted {
                    bump_nz32(&mut self.send_ticks_busy, 1);
                } else {
                    bump_nz32(&mut self.send_ticks_idle, 1);
                }
            },
            Observation::Paused { session: _ } => {
                self.paused_during_window = true;
            },
            Observation::Seeked { session: _ } => {
                self.seeked_during_window = true;
            },
            Observation::AddressRebind { session: _ } => {
                self.address_rebind_seen = true;
            },
            _ => {},
        }
    }

    /// The window with the arrival of a data packet at `now`, after the one at
    /// `previous`.
    pub open spec fn with_arrival(
        self,
        first_byte: Option<u32>,
        previous: Option<Timestamp>,
        now: Timestamp,
    ) -> DataEntry {
        let counted = DataEntry {
            data_packets_received: bumped32(self.data_packets_received, 1),
            request_to_first_byte_ms: if self.request_to_first_byte_ms is None {
                first_byte
            } else {
                self.request_to_first_byte_ms
            },
            ..self
        };
        match previous {
            None => counted,
            Some(p) => DataEntry {
                inter_arrival_ms_sum: added64(self.inter_arrival_ms_sum, now.since(p) as u64),
                inter_arrival_ms_sumsq: added64(
                    self.inter_arrival_ms_sumsq,
                    (now.since(p) * now.since(p)) as u64,
                ),
                inter_arrival_count: bumped32(self.inter_arrival_count, 1),
                ..counted
            },
        }
    }

    fn observe_arrival(
        &mut self,
        first_byte: Option<u32>,
        previous: Option<Timestamp>,
        now: Timestamp,
    )
        ensures
            *final(self) == old(self).with_arrival(first_byte, previous, now),
    {
        bump_nz32(&mut self.data_packets_received, 1);
        if self.request_to_first_byte_ms.is_none() {
            self.request_to_first_byte_ms = first_byte;
        }
        match previous {
            None => {},
            Some(p) => {
                let d: u32 = now.millis_since(p);
                let d64: u64 = d as u64;
                assert(d64 * d64 <= u64::MAX) by (nonlinear_arith)
                    requires
                        d64 <= u32::MAX,
                ;
                add_opt(&mut self.inter_arrival_ms_sum, d64);
                add_opt(&mut self.inter_arrival_ms_sumsq, d64 * d64);
                bump_nz32(&mut self.inter_arrival_count, 1);
            },
        }
    }

    /// The window closed at `now`, the last data packet having come at `last`.
    pub open spec fn closed_at(self, now: Timestamp, last: Option<Timestamp>) -> DataEntry {
        DataEntry {
            window_end: now,
            last_activity_gap_ms: match last {
                Some(l) => Some(now.since(l)),
                None => self.last_activity_gap_ms,
            },
            ..self
        }
    }
}

/// Whether no counter of the window is zero.
pub open spec fn counters_nonzero(e: DataEntry) -> bool {
    &&& e.request_to_first_byte_ms != Some(0u32)
    &&& e.bytes_sent != Some(0u64)
    &&& e.bytes_received != Some(0u64)
    &&& e.data_packets_sent != Some(0u32)
    &&& e.data_packets_received != Some(0u32)
    &&& e.parity_packets_sent != Some(0u32)
    &&& e.parity_packets_received != Some(0u32)
    &&& e.retransmits_issued != Some(0u32)
    &&& e.retransmits_served != Some(0u32)
    &&& e.retransmits_sent != Some(0u32)
    &&& e.recovered_packets != Some(0u32)
    &&& e.recovered_batches != Some(0u32)
    &&& e.unrecoverable_batches != Some(0u32)
    &&& e.wasted_parity != Some(0u32)
    &&& e.holes_observed != Some(0u32)
    &&& e.longest_loss_burst != Some(0u32)
    &&& e.max_reorder_distance != Some(0u32)
    &&& e.recovery_latency_count != Some(0u32)
    &&& e.batch_fill_latency_count != Some(0u32)
    &&& e.retransmit_rtt_count != Some(0u32)
    &&& e.inter_arrival_count != Some(0u32)
    &&& e.buffer_len != Some(0u64)
    &&& e.send_ticks_busy != Some(0u32)
    &&& e.send_ticks_idle != Some(0u32)
}

/// What is known of one session.
#[verifier::ext_equal]
pub struct SessionView {
    pub identity: Option<SessionIdentity>,
    pub current: Option<DataEntry>,
    pub completed: Seq<DataEntry>,
    pub last_arrival: Option<Timestamp>,
}

impl SessionView {
    /// Nothing.
    pub open spec fn unknown() -> SessionView {
        SessionView { identity: None, current: None, completed: seq![], last_arrival: None }
    }

    /// The open window, or a new one.
    pub open spec fn window(
        self,
        session: SessionId,
        identity: SessionIdentity,
        now: Timestamp,
    ) -> DataEntry {
        match self.current {
            Some(e) => e,
            None => DataEntry::opened(session, identity, now),
        }
    }

    /// The session with its open window closed.
    pub open spec fn flushed(self, now: Timestamp) -> SessionView {
        match self.current {
            None => self,
            Some(e) => SessionView {
                current: None,
                completed: self.completed.push(e.closed_at(now, self.last_arrival)),
                ..self
            },
        }
    }

    /// The session with its open window closed and a new one opened in its place.
    pub open spec fn rotated(self, session: SessionId, now: Timestamp) -> SessionView {
        match (self.current, self.identity) {
            (Some(e), Some(identity)) => SessionView {
                current: Some(DataEntry::opened(session, identity, now)),
                ..self.flushed(now)
            },
            _ => self.flushed(now),
        }
    }

    /// The session with its waiting windows taken away.
    pub open spec fn drained(self) -> SessionView {
        SessionView { completed: seq![], ..self }
    }

    /// The identity once a data packet has arrived.
    pub open spec fn identity_on_arrival(
        self,
        identity: SessionIdentity,
        now: Timestamp,
    ) -> SessionIdentity {
        if self.last_arrival is None && identity.request_to_first_byte_ms is None {
            SessionIdentity {
                request_to_first_byte_ms: nonzero(now.since(identity.opened_at)),
                ..identity
            }
        } else {
            identity
        }
    }

    /// The session with one more observation, made at `now`.
    pub open spec fn folded(self, obs: Observation, now: Timestamp) -> SessionView {
        match obs {
            Observation::SessionOpened {
                session,
                local_addr_hash,
                remote_addr_hash,
                fec_config,
            } => {
                let identity = SessionIdentity {
                    local_addr_hash,
                    remote_addr_hash,
                    fec_config,
                    opened_at: now,
                    request_to_first_byte_ms: None,
                };
                SessionView {
                    identity: Some(identity),
                    current: Some(self.window(session, identity, now)),
                    ..self
                }
            },
            Observation::SessionClosed { session } => SessionView {
                identity: None,
                last_arrival: None,
                ..self.flushed(now)
            },
            Observation::DataPacketReceived { session } => match self.identity {
                None => self,
                Some(before) => {
                    let identity = self.identity_on_arrival(before, now);
                    SessionView {
                        identity: Some(identity),
                        current: Some(
                            self.window(session, identity, now).with_arrival(
                                identity.request_to_first_byte_ms,
                                self.last_arrival,
                                now,
                            ),
                        ),
                        last_arrival: Some(now),
                        ..self
                    }
                },
            },
            _ => match self.identity {
                None => self,
                Some(identity) => SessionView {
                    current: Some(self.window(obs.of_session(), identity, now).with(obs)),
                    ..self
                },
            },
        }
    }
}

/// The collector: everything that has been observed and not yet drained.
#[derive(Debug)]
pub struct CollectorState {
    current: Table<u64, DataEntry>,
    identity: Table<u64, SessionIdentity>,
    completed: Table<u64, Vec<DataEntry>>,
    last_arrival: Table<u64, Timestamp>,
}

spec fn lookup<V>(m: Map<u64, V>, key: u64) -> Option<V> {
    if m.dom().contains(key) {
        Some(m[key])
    } else {
        None
    }
}

impl CollectorState {
    /// What is known of a session.
    pub closed spec fn session(self, id: u64) -> SessionView {
        SessionView {
            identity: lookup(self.identity@, id),
            current: lookup(self.current@, id),
            completed: if self.completed@.dom().contains(id) {
                self.completed@[id]@
            } else {
                seq![]
            },
            last_arrival: lookup(self.last_arrival@, id),
        }
    }

    /// A collector that has seen nothing.
    pub fn new() -> (c: Self)
        ensures
            forall|id: u64| c.session(id) == SessionView::unknown(),
    {
        CollectorState {
            current: Table::new(),
            identity: Table::new(),
            completed: Table::new(),
            last_arrival: Table::new(),
        }
    }

    /// Folds an observation made at `now` into its session.
    pub fn fold(&mut self, obs: Observation, now: Timestamp)
        ensures
            final(self).session(obs.of_session().0) == old(self).session(
                obs.of_session().0,
            ).folded(obs, now),
            forall|id: u64|
                id != obs.of_session().0 ==> final(self).session(id) == old(self).session(id),
    {
        match obs {
            Observation::SessionOpened {
                session,
                local_addr_hash,
                remote_addr_hash,
                fec_config,
            } => {
                let identity = SessionIdentity {
                    local_addr_hash,
                    remote_addr_hash,
                    fec_config,
                    opened_at: now,
                    request_to_first_byte_ms: None,
                };
                self.identity.insert(session.0, identity);
                let entry: DataEntry = self.entry(session, identity, now);
                self.current.insert(session.0, entry);
            },
            Observation::SessionClosed { session } => {
                self.flush_open(session, now);
                let _ = self.identity.remove(session.0);
                let _ = self.last_arrival.remove(session.0);
            },
            Observation::DataPacketReceived { session } => {
                self.data_packet_received(session, now);
            },
            Observation::BytesSent { session, .. } => {
                self.observe(session, obs, now);
            },
            Observation::BytesReceived { session, .. } => {
                self.observe(session, obs, now);
            },
            Observation::DataPacketSent { session } => {
                self.observe(session, obs, now);
            },
            Observation::ParityPacketSent { session } => {
                self.observe(session, obs, now);
            },
            Observation::ParityPacketReceived { session } => {
                self.observe(session, obs, now);
            },
            Observation::RetransmitIssued { session, .. } => {
                self.observe(session, obs, now);
            },
            Observation::RetransmitServed { session, .. } => {
                self.observe(session, obs, now);
            },
            Observation::RetransmitSent { session, .. } => {
                self.observe(session, obs, now);
            },
            Observation::PacketsRecovered { session, .. } => {
                self.observe(session, obs, now);
            },
            Observation::BatchRecovered { session, .. } => {
                self.observe(session, obs, now);
            },
            Observation::BatchUnrecoverable { session } => {
                self.observe(session, obs, now);
            },
            Observation::WastedParity { session, .. } => {
                self.observe(session, obs, now);
            },
            Observation::HolesObserved { session, .. } => {
                self.observe(session, obs, now);
            },
            Observation::LossBurst { session, .. } => {
                self.observe(session, obs, now);
            },
            Observation::ReorderDistance { session, .. } => {
                self.observe(session, obs, now);
            },
            Observation::BatchFillLatency { session, .. } => {
                self.observe(session, obs, now);
            },
            Observation::RetransmitRtt { session, .. } => {
                self.observe(session, obs, now);
            },
            Observation::BufferState { session, .. } => {
                self.observe(session, obs, now);
            },
            Observation::LastActivityGap { session, .. } => {
                self.observe(session, obs, now);
            },
            Observation::SendTick { session, .. } => {
                self.observe(session, obs, now);
            },
            Observation::Paused { session } => {
                self.observe(session, obs, now);
            },
            Observation::Seeked { session } => {
                self.observe(session, obs, now);
            },
            Observation::AddressRebind { session } => {
                self.observe(session, obs, now);
            },
        }
    }

    /// The open window of a session, or a new one.
    fn entry(&self, session: SessionId, identity: SessionIdentity, now: Timestamp) -> (e: DataEntry)
        ensures
            e == self.session(session.0).window(session, identity, now),
    {
        match self.current.get(session.0) {
            Some(e) => *e,
            None => DataEntry::new(session, identity, now),
        }
    }

    fn observe(&mut self, session: SessionId, obs: Observation, now: Timestamp)
        requires
            obs.of_session() == session,
            !(obs is SessionOpened),
            !(obs is SessionClosed),
            !(obs is DataPacketReceived),
        ensures
            final(self).session(session.0) == old(self).session(session.0).folded(obs, now),
            forall|id: u64| id != session.0 ==> final(self).session(id) == old(self).session(id),
    {
        let identity: SessionIdentity = match self.identity.get(session.0) {
            Some(i) => *i,
            None => {
                return;
            },
        };
        let mut entry: DataEntry = self.entry(session, identity, now);
        entry.observe(obs);
        self.current.insert(session.0, entry);
    }

    fn data_packet_received(&mut self, session: SessionId, now: Timestamp)
        ensures
            final(self).session(session.0) == old(self).session(session.0).folded(
                Observation::DataPacketReceived { session },
                now,
            ),
            forall|id: u64| id != session.0 ==> final(self).session(id) == old(self).session(id),
    {
        let mut identity: SessionIdentity = match self.identity.get(session.0) {
            Some(i) => *i,
            None => {
                return;
            },
        };
        let previous: Option<Timestamp> = match self.last_arrival.get(session.0) {
            Some(t) => Some(*t),
            None => None,
        };
        if previous.is_none() && identity.request_to_first_byte_ms.is_none() {
            let ms: u32 = now.millis_since(identity.opened_at);
            identity.request_to_first_byte_ms = if ms == 0 {
                None
            } else {
                Some(ms)
            };
        }
        self.identity.insert(session.0, identity);
        let mut entry: DataEntry = self.entry(session, identity, now);
        entry.observe_arrival(identity.request_to_first_byte_ms, previous, now);
        self.current.insert(session.0, entry);
        self.last_arrival.insert(session.0, now);
    }

    /// Closes the open window of every session and opens a new one in its place.
    pub fn rotate(&mut self, now: Timestamp)
        ensures
            forall|id: u64|
                #[trigger] final(self).session(id) == old(self).session(id).rotated(
                    SessionId(id),
                    now,
                ),
    {
        let sessions: Vec<u64> = self.current.keys();
        let mut i: usize = 0;
        while i < sessions.len()
            invariant
                i <= sessions.len(),
                sessions@.no_duplicates(),
                forall|id: u64|
                    sessions@.contains(id) <==> old(self).session(id).current is Some,
                forall|id: u64|
                    (forall|k: int| 0 <= k < i ==> sessions@[k] != id) ==> (
                    #[trigger] self.session(id)) == old(self).session(id),
                forall|k: int|
                    0 <= k < i ==> self.session(#[trigger] sessions@[k]) == old(self).session(
                        sessions@[k],
                    ).rotated(SessionId(sessions@[k]), now),
            decreases sessions.len() - i,
        {
            assert(sessions@.contains(sessions@[i as int]));
            assert(self.session(sessions@[i as int]) == old(self).session(sessions@[i as int]));
            self.reopen_window(SessionId(sessions[i]), now);
            i += 1;
        }
        assert forall|id: u64|
            #[trigger] self.session(id) == old(self).session(id).rotated(SessionId(id), now) by {
            if sessions@.contains(id) {
                let k = choose|k: int| 0 <= k < sessions@.len() && sessions@[k] == id;
                assert(self.session(sessions@[k]) == old(self).session(sessions@[k]).rotated(
                    SessionId(sessions@[k]),
                    now,
                ));
            }
        }
    }

    fn reopen_window(&mut self, session: SessionId, now: Timestamp)
        requires
            old(self).session(session.0).current is Some,
        ensures
            final(self).session(session.0) == old(self).session(session.0).rotated(session, now),
            forall|id: u64| id != session.0 ==> final(self).session(id) == old(self).session(id),
    {
        self.close_window(session, now);
        let identity: Option<SessionIdentity> = match self.identity.get(session.0) {
            Some(known) => Some(*known),
            None => None,
        };
        match identity {
            Some(known) => {
                self.current.insert(session.0, DataEntry::new(session, known, now));
            },
            None => {},
        }
    }

    /// Closes the open window of every session.
    fn flush_all(&mut self, now: Timestamp)
        ensures
            forall|id: u64|
                #[trigger] final(self).session(id) == old(self).session(id).flushed(now),
    {
        let sessions: Vec<u64> = self.current.keys();
        let mut i: usize = 0;
        while i < sessions.len()
            invariant
                i <= sessions.len(),
                sessions@.no_duplicates(),
                forall|id: u64|
                    sessions@.contains(id) <==> old(self).session(id).current is Some,
                forall|id: u64|
                    (forall|k: int| 0 <= k < i ==> sessions@[k] != id) ==> (
                    #[trigger] self.session(id)) == old(self).session(id),
                forall|k: int|
                    0 <= k < i ==> self.session(#[trigger] sessions@[k]) == old(self).session(
                        sessions@[k],
                    ).flushed(now),
            decreases sessions.len() - i,
        {
            self.flush_open(SessionId(sessions[i]), now);
            i += 1;
        }
        assert forall|id: u64| #[trigger] self.session(id) == old(self).session(id).flushed(now) by {
            if sessions@.contains(id) {
                let k = choose|k: int| 0 <= k < sessions@.len() && sessions@[k] == id;
                assert(self.session(sessions@[k]) == old(self).session(sessions@[k]).flushed(now));
            }
        }
    }

    fn close_window(&mut self, session: SessionId, now: Timestamp)
        ensures
            final(self).session(session.0) == old(self).session(session.0).flushed(now),
            forall|id: u64| id != session.0 ==> final(self).session(id) == old(self).session(id),
    {
        let mut entry: DataEntry = match self.current.remove(session.0) {
            Some(e) => e,
            None => {
                return;
            },
        };
        entry.window_end = now;
        match self.last_arrival.get(session.0) {
            Some(last) => {
                entry.last_activity_gap_ms = Some(now.millis_since(*last));
            },
            None => {},
        }
        let mut queue: Vec<DataEntry> = match self.completed.remove(session.0) {
            Some(q) => q,
            None => Vec::new(),
        };
        queue.push(entry);
        self.completed.insert(session.0, queue);
        assert(self.session(session.0).completed =~= old(self).session(
            session.0,
        ).flushed(now).completed);
    }

    fn flush_open(&mut self, session: SessionId, now: Timestamp)
        ensures
            final(self).session(session.0) == old(self).session(session.0).flushed(now),
            forall|id: u64| id != session.0 ==> final(self).session(id) == old(self).session(id),
    {
        self.close_window(session, now);
    }

    /// Takes every window of a session, its open one closed first. An unknown
    /// session has none.
    pub fn drain_session(&mut self, session: SessionId, now: Timestamp) -> (entries: Vec<DataEntry>)
        ensures
            entries@ == old(self).session(session.0).flushed(now).completed,
            final(self).session(session.0) == old(self).session(session.0).flushed(now).drained(),
            forall|id: u64| id != session.0 ==> final(self).session(id) == old(self).session(id),
    {
        self.flush_open(session, now);
        match self.completed.remove(session.0) {
            Some(q) => q,
            None => Vec::new(),
        }
    }

    /// Takes every window of every session, open ones closed first. Sessions are in
    /// no particular order; those without a window are left out.
    pub fn drain_all(&mut self, now: Timestamp) -> (all: Vec<(u64, Vec<DataEntry>)>)
        ensures
            forall|i: int|
                0 <= i < all@.len() ==> (#[trigger] all@[i]).1@ == old(self).session(
                    all@[i].0,
                ).flushed(now).completed,
            forall|i: int, j: int|
                0 <= i < j < all@.len() ==> (#[trigger] all@[i]).0 != (#[trigger] all@[j]).0,
            forall|id: u64|
                (#[trigger] old(self).session(id)).flushed(now).completed.len() > 0 ==> exists|i: int|
                    0 <= i < all@.len() && (#[trigger] all@[i]).0 == id,
            forall|id: u64|
                #[trigger] final(self).session(id) == old(self).session(id).flushed(now).drained(),
    {
        self.flush_all(now);
        let ghost flushed = *self;
        let sessions: Vec<u64> = self.completed.keys();
        let mut all: Vec<(u64, Vec<DataEntry>)> = Vec::new();
        let mut i: usize = 0;
        assert forall|k: int| 0 <= k < sessions@.len() implies self.completed@.dom().contains(
            #[trigger] sessions@[k],
        ) by {
            assert(sessions@.contains(sessions@[k]));
        }
        while i < sessions.len()
            invariant
                i <= sessions.len(),
                sessions@.no_duplicates(),
                forall|id: u64| sessions@.contains(id) <==> flushed.completed@.dom().contains(id),
                all@.len() == i,
                forall|k: int|
                    0 <= k < i ==> (#[trigger] all@[k]).0 == sessions@[k] && all@[k].1@
                        == flushed.session(sessions@[k]).completed,
                forall|id: u64|
                    (forall|k: int| 0 <= k < i ==> sessions@[k] != id) ==> (
                    #[trigger] self.session(id)) == flushed.session(id),
                forall|k: int|
                    i <= k < sessions@.len() ==> self.completed@.dom().contains(
                        #[trigger] sessions@[k],
                    ),
                forall|k: int|
                    0 <= k < i ==> self.session(#[trigger] sessions@[k]) == flushed.session(
                        sessions@[k],
                    ).drained(),
            decreases sessions.len() - i,
        {
            let id: u64 = sessions[i];
            let ghost before = *self;
            assert(self.session(id) == flushed.session(id));
            match self.completed.remove(id) {
                Some(q) => {
                    all.push((id, q));
                },
                None => {
                    all.push((id, Vec::new()));
                },
            }
            assert(forall|j: u64| j != id ==> #[trigger] self.session(j) == before.session(j));
            assert(self.session(id) == before.session(id).drained());
            i += 1;
            assert forall|j: u64| (forall|k: int| 0 <= k < i ==> sessions@[k] != j) implies (
            #[trigger] self.session(j)) == flushed.session(j) by {
                assert(sessions@[i - 1] == id);
                assert(before.session(j) == flushed.session(j));
            }
        }
        assert forall|id: u64|
            (#[trigger] old(self).session(id)).flushed(now).completed.len() > 0 implies exists|k: int|
            0 <= k < all@.len() && (#[trigger] all@[k]).0 == id by {
            assert(flushed.session(id) == old(self).session(id).flushed(now));
            assert(sessions@.contains(id));
            let k = choose|k: int| 0 <= k < sessions@.len() && sessions@[k] == id;
            assert(all@[k].0 == id);
        }
        assert forall|id: u64|
            #[trigger] self.session(id) == old(self).session(id).flushed(now).drained() by {
            assert(flushed.session(id) == old(self).session(id).flushed(now));
            if sessions@.contains(id) {
                let k = choose|k: int| 0 <= k < sessions@.len() && sessions@[k] == id;
                assert(self.session(sessions@[k]) == flushed.session(sessions@[k]).drained());
            } else {
                assert(self.session(id) == flushed.session(id));
                assert(self.session(id).completed =~= seq![]);
            }
        }
        all
    }
}

/// An observation of a session that has not been opened changes nothing, other
/// than that closing an unknown session still closes a window that is open.
pub proof fn unopened_sessions_are_ignored(s: SessionView, obs: Observation, now: Timestamp)
    requires
        s.identity is None,
        !(obs is SessionOpened),
        !(obs is SessionClosed),
    ensures
        s.folded(obs, now) == s,
{
}

/// Whether no counter in any window of the session is zero.
pub open spec fn session_counters_nonzero(s: SessionView) -> bool {
    &&& s.identity matches Some(i) ==> i.request_to_first_byte_ms != Some(0u32)
    &&& s.current matches Some(e) ==> counters_nonzero(e)
    &&& forall|k: int| 0 <= k < s.completed.len() ==> counters_nonzero(#[trigger] s.completed[k])
}

proof fn lemma_with_nonzero(e: DataEntry, obs: Observation)
    requires
        counters_nonzero(e),
    ensures
        counters_nonzero(e.with(obs)),
{
}

/// No observation makes a counter zero.
pub proof fn counters_stay_nonzero(s: SessionView, obs: Observation, now: Timestamp)
    requires
        session_counters_nonzero(s),
    ensures
        session_counters_nonzero(s.folded(obs, now)),
        session_counters_nonzero(s.flushed(now)),
        session_counters_nonzero(SessionView::unknown()),
{
    match s.identity {
        None => {},
        Some(identity) => {
            lemma_with_nonzero(s.window(obs.of_session(), identity, now), obs);
        },
    }
}

/// The time to the first byte, once known, stays the same on every later window of
/// the stream.
pub proof fn first_byte_time_is_sticky(s: SessionView, obs: Observation, now: Timestamp)
    requires
        s.identity is Some,
        s.identity->0.request_to_first_byte_ms is Some,
        !(obs is SessionOpened),
        !(obs is SessionClosed),
    ensures
        s.folded(obs, now).identity == s.identity,
        s.current is None ==> (s.folded(obs, now).current matches Some(e)
            && e.request_to_first_byte_ms == s.identity->0.request_to_first_byte_ms),
{
}

/// Observations leave the windows that wait to be drained alone, save that closing
/// the session adds its open window to them.
pub proof fn waiting_windows_are_kept(s: SessionView, obs: Observation, now: Timestamp)
    ensures
        !(obs is SessionClosed) ==> s.folded(obs, now).completed == s.completed,
        s.completed.is_prefix_of(s.folded(obs, now).completed),
{
}

/// Windows follow each other without a gap: where one is closed by the clock, the
/// next begins at the same moment and has the same identity.
pub proof fn windows_are_contiguous(s: SessionView, session: SessionId, now: Timestamp)
    requires
        s.identity is Some,
        s.current is Some,
    ensures
        ({
            let after = s.rotated(session, now);
            &&& after.completed.len() == s.completed.len() + 1
            &&& after.current is Some
            &&& after.current->0.window_start == after.completed.last().window_end
            &&& after.current->0.window_start == now
            &&& after.current->0.fec_config == s.identity->0.fec_config
            &&& after.current->0.local_addr_hash == s.identity->0.local_addr_hash
            &&& after.current->0.remote_addr_hash == s.identity->0.remote_addr_hash
            &&& after.identity == s.identity
        }),
{
}

/// The SipHash-2-4 digest of `bytes` under the key `(k0, k1)`.
pub uninterp spec fn siphash24(k0: u64, k1: u64, bytes: Seq<u8>) -> u64;

/// Calls `siphasher::sip::SipHasher24`: made with the two halves of the key, fed
/// `bytes` in one piece and finished. The digest depends on these alone.
#[verifier::external_body]
fn keyed_hash(k0: u64, k1: u64, bytes: &[u8]) -> (h: u64)
    ensures
        h == siphash24(k0, k1, bytes@),
{
    let mut hasher = siphasher::sip::SipHasher24::new_with_keys(k0, k1);
    std::hash::Hasher::write(&mut hasher, bytes);
    std::hash::Hasher::finish(&hasher)
}

/// The key under which addresses are hashed. Drawn once per run, so that tags can be
/// told apart within a run and not guessed outside of it.
#[derive(Debug, Clone, Copy)]
pub struct AddrHashKey {
    pub k0: u64,
    pub k1: u64,
}

/// Draws a key at random. Nothing is known of which.
pub fn addr_hash_key() -> AddrHashKey {
    AddrHashKey { k0: random::random_u64(), k1: random::random_u64() }
}

/// The tag of an address, given as text.
pub fn hash_addr(key: AddrHashKey, addr: &[u8]) -> (tag: [u8; 8])
    ensures
        tag@ == wire::be64(siphash24(key.k0, key.k1, addr@)),
{
    wire::be64_array(keyed_hash(key.k0, key.k1, addr))
}

/// The tag of a local port.
pub fn hash_local_port(key: AddrHashKey, port: u16) -> (tag: [u8; 8])
    ensures
        tag@ == wire::be64(siphash24(key.k0, key.k1, wire::be16(port))),
{
    let mut bytes: Vec<u8> = Vec::new();
    wire::put_u16(&mut bytes, port);
    assert(bytes@ =~= wire::be16(port));
    wire::be64_array(keyed_hash(key.k0, key.k1, bytes.as_slice()))
}

/// Takes note of a stream that is opened: the tags of the local port and of the peer's
/// address, given as text, stand for them.
pub fn session_opened(
    key: AddrHashKey,
    session: SessionId,
    local_port: u16,
    remote: &[u8],
    fec_config: FecConfig,
) -> (o: Observation)
    ensures
        o matches Observation::SessionOpened {
            session: s,
            local_addr_hash,
            remote_addr_hash,
            fec_config: c,
        } && s == session && c == fec_config && local_addr_hash@ == wire::be64(
            siphash24(key.k0, key.k1, wire::be16(local_port)),
        ) && remote_addr_hash@ == wire::be64(siphash24(key.k0, key.k1, remote@)),
{
    Observation::SessionOpened {
        session,
        local_addr_hash: hash_local_port(key, local_port),
        remote_addr_hash: hash_addr(key, remote),
        fec_config,
    }
}

} // verus!
