use ubass::manager::fields::{FecScheme, SessionId};
use ubass::manager::ranges::FecConfig;
use ubass::manager::types::Timestamp;
use ubass::utils::data_collection::{
    addr_hash_key, hash_addr, hash_local_port, session_opened, AddrHashKey, CollectorState,
    Observation,
};

fn fec() -> FecConfig {
    FecConfig { scheme: FecScheme::Xor, recovery_count: 0, batch_size: 28 }
}

fn opened(session: SessionId) -> Observation {
    Observation::SessionOpened {
        session,
        local_addr_hash: [1; 8],
        remote_addr_hash: [2; 8],
        fec_config: fec(),
    }
}

#[test]
fn drain_folds_every_observation_kind() {
    let mut collector = CollectorState::new();
    let s = SessionId(42);
    collector.fold(opened(s), Timestamp(100));
    let now = Timestamp(105);
    let rest = [
        // throughput and counts
        Observation::BytesSent { session: s, bytes: 1500 },
        Observation::BytesReceived { session: s, bytes: 700 },
        Observation::DataPacketSent { session: s },
        Observation::DataPacketReceived { session: s },
        Observation::DataPacketReceived { session: s },
        Observation::ParityPacketSent { session: s },
        Observation::ParityPacketReceived { session: s },
        // retransmits
        Observation::RetransmitIssued { session: s, count: 2 },
        Observation::RetransmitServed { session: s, count: 1 },
        Observation::RetransmitSent { session: s, count: 1 },
        // recovery
        Observation::PacketsRecovered { session: s, count: 3 },
        Observation::BatchRecovered { session: s, latency_ms: 12 },
        Observation::BatchRecovered { session: s, latency_ms: 8 },
        Observation::BatchUnrecoverable { session: s },
        Observation::WastedParity { session: s, count: 1 },
        // loss
        Observation::HolesObserved { session: s, count: 4 },
        Observation::LossBurst { session: s, length: 3 },
        Observation::LossBurst { session: s, length: 5 },
        Observation::ReorderDistance { session: s, distance: 2 },
        Observation::ReorderDistance { session: s, distance: 7 },
        // latency
        Observation::BatchFillLatency { session: s, latency_ms: 20 },
        Observation::RetransmitRtt { session: s, rtt_ms: 30 },
        // the application
        Observation::BufferState { session: s, head: 1024, len: 4096 },
        Observation::LastActivityGap { session: s, gap_ms: 50 },
        // pacing
        Observation::SendTick { session: s, emitted: true },
        Observation::SendTick { session: s, emitted: false },
        Observation::SendTick { session: s, emitted: true },
        // flags
        Observation::Paused { session: s },
        Observation::Seeked { session: s },
    ];
    for observation in rest {
        collector.fold(observation, now);
    }

    let entries = collector.drain_session(s, Timestamp(125));
    assert_eq!(entries.len(), 1);
    let e = &entries[0];

    // identity
    assert_eq!(e.session_id, s);
    assert_eq!(e.local_addr_hash, [1; 8]);
    assert_eq!(e.remote_addr_hash, [2; 8]);
    assert_eq!(e.fec_config.scheme, FecScheme::Xor);
    assert!(e.request_to_first_byte_ms.is_some());

    // counters
    assert_eq!(e.bytes_sent, Some(1500));
    assert_eq!(e.bytes_received, Some(700));
    assert_eq!(e.data_packets_sent, Some(1));
    assert_eq!(e.data_packets_received, Some(2));
    assert_eq!(e.parity_packets_sent, Some(1));
    assert_eq!(e.parity_packets_received, Some(1));
    assert_eq!(e.retransmits_issued, Some(2));
    assert_eq!(e.retransmits_served, Some(1));
    assert_eq!(e.retransmits_sent, Some(1));
    assert_eq!(e.recovered_packets, Some(3));
    assert_eq!(e.recovered_batches, Some(2));
    assert_eq!(e.unrecoverable_batches, Some(1));
    assert_eq!(e.wasted_parity, Some(1));
    assert_eq!(e.holes_observed, Some(4));

    // maxima and latencies
    assert_eq!(e.longest_loss_burst, Some(5));
    assert_eq!(e.max_reorder_distance, Some(7));
    assert_eq!(e.recovery_latency_ms_sum, Some(20));
    assert_eq!(e.recovery_latency_count, Some(2));
    assert_eq!(e.batch_fill_latency_ms_sum, Some(20));
    assert_eq!(e.batch_fill_latency_count, Some(1));
    assert_eq!(e.retransmit_rtt_ms_sum, Some(30));
    assert_eq!(e.retransmit_rtt_count, Some(1));
    assert_eq!(e.inter_arrival_count, Some(1));
    assert!(e.inter_arrival_ms_sum.is_some());
    assert!(e.inter_arrival_ms_sumsq.is_some());

    // the application
    assert_eq!(e.buffer_head, Some(1024));
    assert_eq!(e.buffer_len, Some(4096));
    assert!(e.last_activity_gap_ms.is_some());

    // pacing
    assert_eq!(e.send_ticks_busy, Some(2));
    assert_eq!(e.send_ticks_idle, Some(1));

    // flags
    assert!(e.paused_during_window);
    assert!(e.seeked_during_window);
    assert!(!e.address_rebind_seen);
}

#[test]
fn observations_before_session_opened_are_dropped() {
    let mut collector = CollectorState::new();
    let s = SessionId(99);
    collector.fold(Observation::DataPacketReceived { session: s }, Timestamp(0));
    collector.fold(Observation::BytesReceived { session: s, bytes: 1000 }, Timestamp(0));
    assert!(collector.drain_session(s, Timestamp(10)).is_empty());
}

#[test]
fn a_tick_closes_the_window_of_every_session() {
    let mut collector = CollectorState::new();
    for id in [1, 2] {
        collector.fold(opened(SessionId(id)), Timestamp(0));
        collector.fold(
            Observation::BytesSent { session: SessionId(id), bytes: 10 * id },
            Timestamp(1),
        );
    }
    collector.rotate(Timestamp(500));
    collector.fold(Observation::BytesSent { session: SessionId(1), bytes: 5 }, Timestamp(600));
    let mut all = collector.drain_all(Timestamp(700));
    all.sort_by_key(|(id, _)| *id);
    assert_eq!(all.len(), 2);
    let first: Vec<Option<u64>> = all[0].1.iter().map(|e| e.bytes_sent).collect();
    assert_eq!(first[..2], [Some(10), Some(5)]);
    assert_eq!(all[1].1[0].bytes_sent, Some(20));
    assert_eq!(all[0].1[0].window_start, Timestamp(0));
    assert_eq!(all[0].1[0].window_end, Timestamp(500));
}

#[test]
fn the_time_to_the_first_byte_is_kept() {
    let mut collector = CollectorState::new();
    let s = SessionId(3);
    collector.fold(opened(s), Timestamp(100));
    collector.fold(Observation::DataPacketReceived { session: s }, Timestamp(140));
    collector.fold(Observation::DataPacketReceived { session: s }, Timestamp(150));
    let entries = collector.drain_session(s, Timestamp(170));
    assert_eq!(entries[0].request_to_first_byte_ms, Some(40));
    assert_eq!(entries[0].inter_arrival_ms_sum, Some(10));
    assert_eq!(entries[0].inter_arrival_ms_sumsq, Some(100));
    assert_eq!(entries[0].last_activity_gap_ms, Some(20));
}

#[test]
fn addresses_are_hashed_under_a_key() {
    // The published vector of SipHash-2-4 for the key 00 01 .. 0f and the bytes
    // 00 01 .. 0e is 0xa129ca6149be45e5.
    let key = AddrHashKey { k0: 0x0706_0504_0302_0100, k1: 0x0f0e_0d0c_0b0a_0908 };
    let bytes: Vec<u8> = (0..15).collect();
    assert_eq!(hash_addr(key, &bytes), 0xa129_ca61_49be_45e5u64.to_be_bytes());
    let other = AddrHashKey { k0: 1, k1: 2 };
    assert_ne!(hash_addr(other, &bytes), hash_addr(key, &bytes));
    assert_ne!(hash_local_port(key, 8455), hash_local_port(key, 8456));
}

#[test]
fn an_opened_stream_is_noted_under_tags() {
    let key = AddrHashKey { k0: 1, k1: 2 };
    match session_opened(key, SessionId(5), 8455, b"127.0.0.1:9000", fec()) {
        Observation::SessionOpened { session, local_addr_hash, remote_addr_hash, fec_config } => {
            assert_eq!(session, SessionId(5));
            assert_eq!(local_addr_hash, hash_local_port(key, 8455));
            assert_eq!(remote_addr_hash, hash_addr(key, b"127.0.0.1:9000"));
            assert_eq!(fec_config, fec());
        }
        other => panic!("{other:?}"),
    }
}

#[test]
fn keys_are_drawn_at_random() {
    let a = addr_hash_key();
    let b = addr_hash_key();
    assert!(a.k0 != b.k0 || a.k1 != b.k1);
}
