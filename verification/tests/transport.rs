use ubass::error::TransportError;
use ubass::manager::fields::PacketType;
use ubass::manager::identity::Address;
use ubass::packet_processor::types::ProcessedPacket;
use ubass::transport::inbound::FailCount;
use ubass::transport::outbound::{route, send_order, Outbound, Route, Sending};
use ubass::transport::types::{OutboundSockets, ADDITION_THRESHOLD, REMOVAL_THRESHOLD};

fn home(port: u16) -> Address {
    Address::V4 { octets: 0x7f00_0001, port }
}

fn packet(packet_type: PacketType, byte: u8, duplicate_count: usize) -> ProcessedPacket {
    ProcessedPacket { dest_addr: home(9000), packet_type, data: vec![byte], duplicate_count }
}

#[test]
fn packets_are_routed_by_type() {
    for buffered in [PacketType::Data, PacketType::Metadata, PacketType::Parity] {
        assert_eq!(route(buffered), Route::Batch);
    }
    for listening in [PacketType::Host, PacketType::KeepAlive] {
        assert_eq!(route(listening), Route::Listening);
    }
    for direct in
        [PacketType::Ack, PacketType::HandshakeAck, PacketType::Session, PacketType::Playback, PacketType::Error]
    {
        assert_eq!(route(direct), Route::Pool);
    }
}

#[test]
fn data_waits_for_the_batch() {
    let mut outbound = Outbound::new();
    assert!(outbound.take(packet(PacketType::Data, 1, 1)).is_none());
    assert!(outbound.take(packet(PacketType::Parity, 2, 1)).is_none());
    assert!(matches!(
        outbound.take(packet(PacketType::Host, 3, 7)),
        Some(Sending::Listening(p)) if p.data == [3]
    ));
    assert!(matches!(
        outbound.take(packet(PacketType::Ack, 4, 3)),
        Some(Sending::Direct { socket: 0, packet }) if packet.data == [4]
    ));
    match outbound.flush() {
        Some(Sending::Batch { socket: 0, packets }) => {
            assert_eq!(packets.len(), 2);
            assert_eq!(packets[0].data, [1]);
            assert_eq!(packets[1].data, [2]);
        }
        other => panic!("{other:?}"),
    }
    assert!(outbound.flush().is_none());
}

#[test]
fn a_batch_ends_when_it_is_full_or_its_time_is_over() {
    let mut outbound = Outbound::new();
    assert_eq!(outbound.remaining(0), Some(5));
    assert_eq!(outbound.remaining(4), Some(1));
    assert_eq!(outbound.remaining(5), None);
    for _ in 0..128 {
        assert!(outbound.remaining(0).is_some());
        outbound.take(packet(PacketType::Data, 0, 1));
    }
    assert_eq!(outbound.remaining(0), None);
}

#[test]
fn packets_of_a_batch_are_sent_as_often_as_they_say() {
    let packets = vec![
        packet(PacketType::Data, 1, 1),
        packet(PacketType::Metadata, 2, 3),
        packet(PacketType::Data, 3, 0),
        packet(PacketType::Parity, 4, 1),
    ];
    assert_eq!(send_order(&packets), vec![0, 1, 1, 1, 3]);
}

#[test]
fn sockets_take_turns() {
    let mut sockets = OutboundSockets::new();
    sockets.add_socket();
    sockets.add_socket();
    let places: Vec<usize> = (0..5).map(|_| sockets.retrieve()).collect();
    assert_eq!(places, vec![0, 1, 2, 0, 1]);
}

#[test]
fn fifty_batches_that_are_full_at_once_add_a_socket() {
    assert_eq!(ADDITION_THRESHOLD, 1116);
    let mut sockets = OutboundSockets::new();
    for _ in 0..49 {
        let change = sockets.update(0);
        assert!(!change.add && change.removed.is_none());
    }
    assert!(sockets.update(0).add);
    assert_eq!(sockets.meters.addition, 0);
}

#[test]
fn a_hundred_batches_on_time_give_up_a_socket() {
    assert_eq!(REMOVAL_THRESHOLD, 338_350);
    let mut sockets = OutboundSockets::new();
    sockets.add_socket();
    for _ in 0..99 {
        assert!(sockets.update(5).removed.is_none());
    }
    assert_eq!(sockets.update(5).removed, Some(1));
    assert_eq!(sockets.count, 1);
    // the last socket stays
    let mut alone = OutboundSockets::new();
    for _ in 0..100 {
        assert!(alone.update(7).removed.is_none());
    }
    assert_eq!(alone.count, 1);
}

#[test]
fn giving_up_the_first_socket_keeps_the_turn() {
    let mut sockets = OutboundSockets::new();
    sockets.add_socket();
    sockets.retrieve();
    assert_eq!(sockets.current, 1);
    for _ in 0..99 {
        sockets.update(5);
    }
    assert_eq!(sockets.update(5).removed, Some(0));
    assert_eq!(sockets.retrieve(), 0);
}

#[test]
fn an_early_batch_counts_less_the_later_it_is() {
    let mut sockets = OutboundSockets::new();
    sockets.update(0);
    sockets.update(0);
    // (2 - 1) * 25 / 2
    assert_eq!(sockets.meters.addition, 12);
    sockets.update(3);
    // (3 - 1) * 4 / 3
    assert_eq!(sockets.meters.addition, 14);
    sockets.update(9);
    assert_eq!(sockets.meters.early, 2);
    assert_eq!(sockets.meters.on_time, 1);
    assert_eq!(sockets.meters.removal, 1);
}

#[test]
fn receiving_is_given_up_after_ten_failures_in_a_row() {
    let mut fails = FailCount::new();
    for _ in 0..9 {
        assert!(fails.failed().is_ok());
    }
    let got = fails.received(home(1), vec![1, 2, 3, 0, 0], 3);
    assert_eq!(got.data, vec![1, 2, 3]);
    assert_eq!(got.src_addr, home(1));
    for _ in 0..9 {
        assert!(fails.failed().is_ok());
    }
    assert_eq!(fails.failed(), Err(TransportError::RecvFailedTooManyTimes));
}
