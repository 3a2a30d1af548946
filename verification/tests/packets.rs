use ubass::manager::fields::{
    BatchID, BytePosition, Options, PacketType, SessionId, Version,
};
use ubass::manager::identity::{Address, AppId, PacketFingerprint};
use ubass::manager::packets::{AckPacket, DataPacket, HelloPacket, RetransmitPacket};
use ubass::manager::ranges::{
    coalesce_byte_positions, get_ranges, split_range_into_chunks, ByteRange, FECInfo,
};
use ubass::manager::types::Timestamp;
use ubass::manager::windows::FingerprintWindow;
use ubass::packet_processor::fingerprint::{fingerprint_of, header_fingerprint};
use ubass::packet_processor::inbound::{dedup_no_payload, dedup_with_payload};
use ubass::packet_processor::serialize::Serialize;
use ubass::packet_processor::types::ProcessedPacket;
use ubass::utils::Flags;

fn get_data_packet() -> DataPacket {
    DataPacket {
        version: Version::current(),
        opts: Options::none(),
        packet_type: PacketType::Data,
        batch_id: BatchID(9),
        fec_info: FECInfo { batch_size: 9, batch_pos: 2, recovery_count: 5 },
        session_id: SessionId(5),
        timestamp: Timestamp(120),
        byte_range_start: BytePosition(8),
        payload: vec![1u8, 2, 3, 4, 5],
    }
}

fn serialized_data_packet() -> [u8; 35] {
    [
        /*version*/ 0,
        1,
        /*opts*/ 0,
        0,
        PacketType::Data.to_code(),
        /*batch_id*/ 0,
        9,
        /*fec_info*/ 9,
        2,
        5,
        /*session_id*/ 0,
        0,
        0,
        0,
        0,
        0,
        0,
        5,
        /*timestamp*/ 0,
        0,
        0,
        0,
        0,
        0,
        0,
        120,
        /*byte_position*/ 0,
        0,
        0,
        8,
        /*payload*/ 1,
        2,
        3,
        4,
        5,
    ]
}

#[test]
fn test_serialize() {
    let packet = get_data_packet();
    let mut buf = vec![0u8; packet.sized()];
    assert!(packet.serialize(&mut buf).is_ok());
    assert_eq!(buf, serialized_data_packet());
}

#[test]
fn test_processed() {
    let packet = get_data_packet();
    let mut buf = Vec::new();
    packet.put(&mut buf);
    assert_eq!(buf, serialized_data_packet());

    let address = Address::V4 { octets: 0x7f00_0001, port: 0 };
    let processed = ProcessedPacket {
        dest_addr: address,
        packet_type: PacketType::Data,
        data: buf.clone(),
        duplicate_count: 1,
    };
    assert_eq!(processed.dest_addr, address);
    assert_eq!(processed.packet_type, PacketType::Data);
    assert_eq!(processed.data, buf);
    assert_eq!(processed.duplicate_count, 1);
}

#[test]
fn a_buffer_that_is_too_small_is_left_alone() {
    let packet = get_data_packet();
    let mut buf = vec![7u8; 34];
    assert!(packet.serialize(&mut buf).is_err());
    assert_eq!(buf, vec![7u8; 34]);
}

#[test]
fn what_is_written_can_be_read() {
    let packet = get_data_packet();
    let mut buf = Vec::new();
    packet.put(&mut buf);
    let read = DataPacket::deserialize(&buf).unwrap();
    assert_eq!(read.batch_id, packet.batch_id);
    assert_eq!(read.fec_info, packet.fec_info);
    assert_eq!(read.session_id, packet.session_id);
    assert_eq!(read.timestamp, packet.timestamp);
    assert_eq!(read.byte_range_start, packet.byte_range_start);
    assert_eq!(read.payload, packet.payload);
    assert!(DataPacket::deserialize(&buf[..29]).is_err());
}

#[test]
fn an_acknowledgement_names_a_fingerprint() {
    let ack = AckPacket::new(
        Options::none(),
        SessionId(7),
        PacketFingerprint(0x0102_0304_0506_0708_090a_0b0c_0d0e_0f10),
        Timestamp(3),
    );
    let mut buf = Vec::new();
    ack.put(&mut buf);
    assert_eq!(buf.len(), 40);
    assert_eq!(buf[24..40], [1, 2, 3, 4, 5, 6, 7, 8, 9, 10, 11, 12, 13, 14, 15, 16]);
    assert_eq!(AckPacket::deserialize(&buf).unwrap().fingerprint, ack.fingerprint);
}

#[test]
fn a_hello_carries_the_id_of_the_application() {
    let hello = HelloPacket::new(
        Options::none(),
        SessionId(1),
        ubass::manager::fields::HandshakeId(2),
        ubass::manager::identity::PublicKey([3u8; 32]),
        AppId::new(b"music".to_vec()),
        ubass::manager::fields::Port(8455),
        Timestamp(4),
    );
    let mut buf = Vec::new();
    hello.put(&mut buf);
    assert_eq!(buf.len(), HelloPacket::HEADER_SIZE + 5);
    let read = HelloPacket::deserialize(&buf).unwrap();
    assert_eq!(read.app_id.as_bytes(), b"music");
    buf.push(0xff);
    assert!(HelloPacket::deserialize(&buf).is_err());
}

fn marked_packet(session: u64) -> Vec<u8> {
    let mut packet = b"random packet".to_vec();
    packet.extend_from_slice(&session.to_be_bytes());
    packet
}

fn marked_data_packet(session: u64) -> DataPacket {
    let mut packet = *DataPacket::new(
        Options::none(),
        BatchID(2),
        FECInfo { batch_size: 10, batch_pos: 2, recovery_count: 3 },
        SessionId(session + 1),
        BytePosition(12),
        vec![1, 2, 3, 4, 5],
        Timestamp(0),
    );
    packet.payload.extend_from_slice(&session.to_be_bytes());
    packet
}

#[test]
fn dedup_without_payload_not_duplicate() {
    let packet = b"random packet".to_vec();
    let mut window = FingerprintWindow::default();
    let some = dedup_no_payload(packet.clone(), &mut window, Timestamp(0));
    assert_eq!(some, Some(packet));
}

#[test]
fn dedup_without_payload_duplicate() {
    let packet = marked_packet(2);
    let mut window = FingerprintWindow::default();
    assert!(window.add(fingerprint_of(&packet), Timestamp(0)));
    let none = dedup_no_payload(packet.clone(), &mut window, Timestamp(0));
    assert!(none.is_none());
}

#[test]
fn dedup_with_payload_duplicate() {
    let packet = marked_data_packet(3);
    let mut window = FingerprintWindow::default();
    assert!(window.add(header_fingerprint(&packet), Timestamp(0)));
    let none = dedup_with_payload(packet, &mut window, Timestamp(0));
    assert!(none.is_none());
}

#[test]
fn dedup_with_payload_not_duplicate() {
    let packet = marked_data_packet(4);
    let mut window = FingerprintWindow::default();
    let some = dedup_with_payload(packet, &mut window, Timestamp(0));
    assert!(some.is_some());
}

#[test]
fn a_fingerprint_is_remembered_for_as_long_as_packets_live() {
    let mut window = FingerprintWindow::default();
    let print = fingerprint_of(b"packet");
    assert!(window.add(print, Timestamp(1000)));
    assert!(!window.add(print, Timestamp(1400)));
    assert_eq!(window.prune(Timestamp(1500)), 500 + 2000);
    assert!(window.contains(&print));
    assert_eq!(window.prune(Timestamp(1501)), 500);
    assert!(!window.contains(&print));
    assert!(window.add(print, Timestamp(1501)));
}

#[test]
fn ranges_are_made_of_runs_of_chunks() {
    let ranges = coalesce_byte_positions(vec![
        BytePosition(0),
        BytePosition(1384),
        BytePosition(2768),
        BytePosition(6920),
    ]);
    assert_eq!(
        ranges,
        vec![
            ByteRange { start: BytePosition(0), length: 3 * 1384 },
            ByteRange { start: BytePosition(6920), length: 1384 },
        ]
    );
    let chunks = split_range_into_chunks(ranges[0]);
    assert_eq!(chunks.len(), 3);
}

#[test]
fn ranges_are_read_as_they_were_written() {
    let ranges = vec![
        ByteRange { start: BytePosition(1384), length: 1384 },
        ByteRange { start: BytePosition(70_000), length: 20 },
    ];
    let packet = RetransmitPacket::data(Options::none(), SessionId(5), ranges, Timestamp(9));
    let mut bytes = Vec::new();
    packet.put(&mut bytes);
    assert_eq!(bytes.len(), 24 + 2 * 6);
    let read = RetransmitPacket::deserialize(&bytes).unwrap();
    assert_eq!(read.payload.len(), 2);
    assert_eq!(read.payload[0].start, BytePosition(1384));
    assert_eq!(read.payload[1].start, BytePosition(70_000));
    assert_eq!(read.payload[1].length, 20);
    // what is left over is ignored, and a request names at least one range
    assert_eq!(get_ranges(&bytes[..35], 24).unwrap().len(), 1);
    assert_eq!(get_ranges(&bytes[..30], 24).unwrap().len(), 1);
    assert!(get_ranges(&bytes[..29], 24).is_err());
    assert!(RetransmitPacket::deserialize(&bytes[..29]).is_err());
    assert!(RetransmitPacket::deserialize(&bytes[..24]).is_err());
}
