use ubass::manager::fields::{
    BatchID, BytePosition, FecScheme, Options, SessionId, MAX_PAYLOAD_LENGTH,
};
use ubass::manager::packets::DataPacket;
use ubass::manager::ranges::FECInfo;
use ubass::manager::session_fec::{FecBatchWindow, Span};
use ubass::manager::types::Timestamp;
use ubass::packet_processor::fec::data::{RecoverdPacket, FEC_DATA_SIZE};
use ubass::packet_processor::fec::Fec;
use ubass::utils::chunk_set::ChunkSet;
use ubass::utils::Flags;

const SESSION: SessionId = SessionId(11);
const BATCH: BatchID = BatchID(3);

fn data(pos: u8, size: u8, recovery_count: u8) -> DataPacket {
    *DataPacket::new(
        Options::none(),
        BATCH,
        FECInfo { batch_size: size, batch_pos: pos, recovery_count },
        SESSION,
        BytePosition(pos as u32 * MAX_PAYLOAD_LENGTH as u32),
        (0..MAX_PAYLOAD_LENGTH).map(|i| (i as u8).wrapping_mul(pos + 1)).collect(),
        Timestamp(0),
    )
}

#[test]
fn xor_recovers_one_lost_packet() {
    let mut sender = Fec::new();
    let mut receiver = Fec::new();
    let mut parity = None;
    for pos in 0..4 {
        let packet = data(pos, 4, 0);
        assert!(parity.is_none());
        parity = sender.sent(&packet, FecScheme::Xor, Timestamp(0));
        if pos != 2 {
            assert!(!receiver.received(&packet, FecScheme::Xor, Timestamp(1)));
        }
    }
    let parity = parity.unwrap();
    assert_eq!(parity.len(), 1);
    assert!(receiver.received_parity(&parity[0], FecScheme::Xor, Timestamp(2)));
    let recovered = receiver.recover(BATCH, SESSION, FecScheme::Xor).unwrap();
    assert_eq!(recovered.packets.len(), 1);
    assert_eq!(recovered.packets[0].byte_range_start, BytePosition(2 * 1384));
    assert_eq!(recovered.packets[0].payload, data(2, 4, 0).payload);
    // the batch is gone
    assert!(receiver.recover(BATCH, SESSION, FecScheme::Xor).is_none());
}

#[test]
fn xor_does_not_recover_two_lost_packets() {
    let mut sender = Fec::new();
    let mut receiver = Fec::new();
    let mut parity = None;
    for pos in 0..4 {
        let packet = data(pos, 4, 0);
        parity = sender.sent(&packet, FecScheme::Xor, Timestamp(0));
        if pos > 1 {
            receiver.received(&packet, FecScheme::Xor, Timestamp(1));
        }
    }
    assert!(!receiver.received_parity(&parity.unwrap()[0], FecScheme::Xor, Timestamp(2)));
    assert!(receiver.recover(BATCH, SESSION, FecScheme::Xor).is_none());
}

#[test]
fn reed_solomon_recovers_as_many_as_there_is_parity() {
    let mut sender = Fec::new();
    let mut receiver = Fec::new();
    let mut parity = None;
    for pos in 0..6 {
        let packet = data(pos, 6, 2);
        parity = sender.sent(&packet, FecScheme::ReedSolomon, Timestamp(0));
        if pos != 1 && pos != 4 {
            assert!(!receiver.received(&packet, FecScheme::ReedSolomon, Timestamp(1)));
        }
    }
    let parity = parity.unwrap();
    assert_eq!(parity.len(), 2);
    assert!(!receiver.received_parity(&parity[1], FecScheme::ReedSolomon, Timestamp(2)));
    assert!(receiver.received_parity(&parity[0], FecScheme::ReedSolomon, Timestamp(2)));
    let recovered = receiver.recover(BATCH, SESSION, FecScheme::ReedSolomon).unwrap();
    let mut starts: Vec<u32> = recovered.packets.iter().map(|p| p.byte_range_start.0).collect();
    starts.sort();
    assert_eq!(starts, vec![1384, 4 * 1384]);
    for packet in &recovered.packets {
        let pos = (packet.byte_range_start.0 / 1384) as u8;
        assert_eq!(packet.payload[..MAX_PAYLOAD_LENGTH], data(pos, 6, 2).payload[..]);
    }
}

#[test]
fn reed_solomon_recovers_a_short_packet_without_padding() {
    let mut sender = Fec::new();
    let mut receiver = Fec::new();
    let mut parity = None;
    for pos in 0..3 {
        let mut packet = data(pos, 3, 1);
        if pos == 2 {
            packet.payload.truncate(100);
        } else {
            receiver.received(&packet, FecScheme::ReedSolomon, Timestamp(1));
        }
        parity = sender.sent(&packet, FecScheme::ReedSolomon, Timestamp(0));
    }
    assert!(receiver.received_parity(&parity.unwrap()[0], FecScheme::ReedSolomon, Timestamp(2)));
    let recovered = receiver.recover(BATCH, SESSION, FecScheme::ReedSolomon).unwrap();
    assert_eq!(recovered.packets.len(), 1);
    assert_eq!(recovered.packets[0].byte_range_start, BytePosition(2 * 1384));
    assert_eq!(recovered.packets[0].payload[..], data(2, 3, 1).payload[..100]);
}

#[test]
fn a_batch_has_one_range_while_its_packets_agree() {
    let mut window = FecBatchWindow::new(4, 1, Timestamp(0));
    assert_eq!(window.contiguous_byte_range(), None);
    window.add_data(2, BytePosition(1000 + 2 * 1384));
    window.add_data(0, BytePosition(1000));
    let range = Span { start: 1000, end: 1000 + 4 * 1384 };
    assert_eq!(window.contiguous_byte_range(), Some(range));
    window.add_data(1, BytePosition(1000));
    assert_eq!(window.contiguous_byte_range(), None);
    window.add_data(0, BytePosition(1000));
    assert_eq!(window.contiguous_byte_range(), None);
}

#[test]
fn a_batch_that_is_given_up_names_what_it_misses() {
    let mut receiver = Fec::new();
    for pos in [0, 3] {
        receiver.received(&data(pos, 4, 0), FecScheme::Xor, Timestamp(100));
    }
    assert!(receiver.prune(500, Timestamp(600)).is_empty());
    let pruned = receiver.prune(500, Timestamp(601));
    assert_eq!(pruned.len(), 1);
    assert_eq!(
        pruned[0],
        (SESSION, BATCH, vec![BytePosition(1384), BytePosition(2 * 1384)])
    );
}

#[test]
fn a_block_gives_a_packet_if_it_is_long_enough() {
    assert!(RecoverdPacket::try_from_bytes(&vec![1u8; FEC_DATA_SIZE - 1]).is_err());
    let packet = RecoverdPacket::try_from_bytes(&vec![1u8; FEC_DATA_SIZE]).ok().unwrap();
    assert_eq!(packet.byte_range_start, BytePosition(0x0101_0101));
    assert_eq!(packet.payload, vec![1u8; MAX_PAYLOAD_LENGTH]);
}

#[test]
fn chunk_numbers_come_out_in_order() {
    let mut set = ChunkSet::new();
    assert!(set.is_empty());
    for number in [7, 2, 9, 2, 4] {
        set.insert(number);
    }
    assert_eq!(set.take_first(2), vec![2, 4]);
    set.insert(1);
    assert_eq!(set.take_first(10), vec![1, 7, 9]);
    assert!(set.is_empty());
    assert_eq!(set.take_first(1), Vec::<usize>::new());
}
