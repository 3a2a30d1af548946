use ubass::api::types::{
    Area, ReadableBuffer, Score, WriteableBuffer, BEFORE_HEAD_URGENCY_CAP_TENTHS,
    MAX_REQUESTS_PER_TICK,
};
use ubass::manager::fields::{BytePosition, MAX_PAYLOAD_LENGTH};

const SCORE_THRESHOLD: f64 = 0.3;

fn value(score: Score) -> f64 {
    score.num as f64 / score.den as f64
}

fn urgency_cap() -> f64 {
    BEFORE_HEAD_URGENCY_CAP_TENTHS as f64 / 10.0
}

// A buffer of `n` chunks, the last of which has a single byte.
fn make_buf(num_chunks: usize) -> WriteableBuffer {
    let len = (num_chunks - 1) * MAX_PAYLOAD_LENGTH + 1;
    WriteableBuffer::new(vec![0u8; len])
}

fn occupy_chunk(buf: &mut WriteableBuffer, idx: usize) {
    buf.occupy(BytePosition((idx * MAX_PAYLOAD_LENGTH) as u32));
}

fn area(start: usize, end: usize) -> Area {
    Area { start, end }
}

#[test]
fn fresh_buffer_scores_zero() {
    // One area covering the whole buffer, nothing valid past it: confidence 0.
    let buf = make_buf(8);
    let scores = buf.score_areas();
    assert_eq!(scores.len(), 1);
    assert_eq!(value(scores[0].1), 0.0);
}

#[test]
fn confidence_grows_as_chunks_arrive_past_hole() {
    // Hole [0, 4), valid [4, 8). Head still at 0, urgency 1.
    // valid_past = 8 - 4 - 0 = 4, confidence = 4 / (4 + 4) = 0.5
    let mut buf = make_buf(8);
    for i in 4..8 {
        occupy_chunk(&mut buf, i);
    }
    let scores = buf.score_areas();
    assert_eq!(scores.len(), 1);
    assert!((value(scores[0].1) - 0.5).abs() < 1e-9);
}

#[test]
fn head_adjacent_outranks_far_hole() {
    // Layout: hole [0,2), valid [2,4), hole [4,6), valid [6,10)
    let mut buf = make_buf(10);
    for i in [2, 3, 6, 7, 8, 9] {
        occupy_chunk(&mut buf, i);
    }
    let scores = buf.score_areas();
    assert_eq!(scores.len(), 2);
    assert!(
        value(scores[0].1) > value(scores[1].1),
        "head-adjacent {} should outrank far {}",
        value(scores[0].1),
        value(scores[1].1)
    );
}

#[test]
fn urgency_decays_continuously_with_distance() {
    let head_chunk = 0;
    let u0 = value(area(0, 1).urgency(head_chunk));
    let u1 = value(area(2, 3).urgency(head_chunk));
    let u2 = value(area(8, 9).urgency(head_chunk));
    assert!(u0 > u1 && u1 > u2);
    assert!((u0 - 1.0).abs() < 1e-9);
}

#[test]
fn before_head_urgency_capped_below_one() {
    let head_chunk = 5;
    let small = area(0, 2); // size 2: 2/8 = 0.25, no cap needed
    let huge = area(0, 100); // size 100: 100/8 = 12.5, capped
    assert!((value(small.urgency(head_chunk)) - 0.25).abs() < 1e-9);
    assert!((value(huge.urgency(head_chunk)) - urgency_cap()).abs() < 1e-9);
    assert!((urgency_cap() - 0.9).abs() < 1e-9);
}

#[test]
fn before_head_score_zero_until_data_arrives_past() {
    let mut buf = make_buf(20);
    buf.seek_head(BytePosition((10 * MAX_PAYLOAD_LENGTH) as u32));
    let scores = buf.score_areas();
    assert_eq!(scores.len(), 1);
    assert_eq!(value(scores[0].1), 0.0);

    occupy_chunk(&mut buf, 15);
    occupy_chunk(&mut buf, 16);
    let scores = buf.score_areas();
    let first = scores
        .iter()
        .find(|(a, _)| a.start == 0)
        .expect("[0, ...) area still present");
    assert!(value(first.1) > 0.0);
    assert!(value(first.1) <= urgency_cap() + 1e-9);
}

#[test]
fn confidence_monotone_in_valid_past() {
    let hole = area(0, 2);
    let total = 100;
    let c_low = value(hole.confidence_lost(total, 90));
    let c_mid = value(hole.confidence_lost(total, 50));
    let c_high = value(hole.confidence_lost(total, 0));
    assert!(c_low < c_mid && c_mid < c_high);
    assert!(c_high < 1.0);
}

#[test]
fn confidence_has_no_limit_on_chunks() {
    let c = area(0, 2).confidence_lost(usize::MAX, 0);
    assert_eq!(c.num, usize::MAX as u128 - 2);
    assert_eq!(c.den, usize::MAX as u128 + 2);
    let u = area(0x100_0000, 0x100_0001).urgency(0);
    assert_eq!((u.num, u.den), (4, 0x100_0004));
}

#[test]
fn requestable_areas_filters_below_threshold() {
    // hole [0,1), valid [1,8): urgency 1, valid_past = 7, confidence = 7/11
    let mut buf = make_buf(8);
    for i in 1..8 {
        occupy_chunk(&mut buf, i);
    }
    let picked = buf.requestable_areas();
    assert_eq!(picked.len(), 1);
    assert_eq!(picked[0].start, 0);

    // A fresh buffer where every area scores 0.
    let buf = make_buf(8);
    assert!(buf.requestable_areas().is_empty());
}

#[test]
fn requestable_areas_caps_at_max_and_returns_top_by_score() {
    // Layout: hole [0,1), valid [1,2), hole [2,3), valid [3,4),
    //         hole [4,5), valid [5,16)
    let mut buf = make_buf(16);
    for i in [1, 3, 5, 6, 7, 8, 9, 10, 11, 12, 13, 14, 15] {
        occupy_chunk(&mut buf, i);
    }

    let scored = buf.score_areas();
    assert_eq!(scored.len(), 3);
    for (_, s) in &scored {
        assert!(value(*s) >= SCORE_THRESHOLD);
    }

    let picked = buf.requestable_areas();
    assert_eq!(picked.len(), MAX_REQUESTS_PER_TICK);
    assert_eq!(picked[0].start, 0);
    assert_eq!(picked[1].start, 2);
}

#[test]
fn pieces_of_a_source_fill_a_buffer() {
    let source: Vec<u8> = (0..5000u32).map(|i| (i % 251) as u8).collect();
    let mut from = ReadableBuffer::new(source.clone());
    let mut into = WriteableBuffer::new(vec![0u8; source.len()]);
    let mut chunks = from.take(10);
    assert_eq!(chunks.len(), 4);
    assert!(from.is_done());
    assert!(from.next().is_none());
    // the order does not matter
    chunks.reverse();
    for chunk in &chunks {
        assert!(!into.is_done());
        assert!(into.write(chunk.position, &chunk.payload).is_some());
    }
    assert!(into.is_done());
    assert!(into.head_at_end());
    assert_eq!(into.into_vec(), source);
}

#[test]
fn a_buffer_of_full_chunks_is_done_once_it_is_filled() {
    let mut one = WriteableBuffer::new(vec![0u8; MAX_PAYLOAD_LENGTH]);
    assert!(!one.is_done());
    let whole = 0..MAX_PAYLOAD_LENGTH;
    assert_eq!(one.write(BytePosition(0), &[7u8; MAX_PAYLOAD_LENGTH]), Some(whole));
    assert_eq!(one.head(), MAX_PAYLOAD_LENGTH);
    assert!(one.is_done());
    assert!(one.all_invalid_areas().is_empty());
    assert_eq!(one.into_vec(), vec![7u8; MAX_PAYLOAD_LENGTH]);

    let mut three = WriteableBuffer::new(vec![0u8; 3 * MAX_PAYLOAD_LENGTH]);
    assert_eq!(three.all_invalid_areas(), vec![area(0, 3)]);
    for i in [2, 0, 1] {
        assert!(!three.is_done());
        let at = BytePosition((i * MAX_PAYLOAD_LENGTH) as u32);
        assert!(three.write(at, &[i as u8; MAX_PAYLOAD_LENGTH]).is_some());
        // a second copy is turned down
        assert!(three.write(at, &[9u8; MAX_PAYLOAD_LENGTH]).is_none());
    }
    assert!(three.is_done());
}

#[test]
fn an_empty_buffer_is_done_from_the_start() {
    let mut none = WriteableBuffer::new(Vec::new());
    assert!(none.is_done());
    assert!(none.all_invalid_areas().is_empty());
    assert!(none.find_holes(BytePosition(0)).is_empty());
    assert_eq!(none.write(BytePosition(0), &[]), None);
}

#[test]
fn the_end_of_full_chunks_lies_in_no_chunk() {
    let end = BytePosition(2 * MAX_PAYLOAD_LENGTH as u32);
    let mut full = WriteableBuffer::new(vec![0u8; 2 * MAX_PAYLOAD_LENGTH]);
    assert_eq!(full.position_occupied(end), None);
    assert_eq!(full.write(end, &[]), None);
    assert_eq!(
        full.find_holes(end),
        vec![BytePosition(0), BytePosition(MAX_PAYLOAD_LENGTH as u32)]
    );
    assert_eq!(full.seek_head(end), Some(true));
    assert!(full.head_at_end());
    assert!(!full.is_done());
}

#[test]
fn the_end_of_a_buffer_belongs_to_a_short_last_chunk() {
    let end = BytePosition(1385);
    let mut buf = WriteableBuffer::new(vec![0u8; 1385]);
    assert_eq!(buf.position_occupied(end), Some(false));
    assert_eq!(buf.position_occupied(BytePosition(1386)), None);
    buf.occupy(BytePosition(1384));
    assert_eq!(buf.position_occupied(end), Some(true));
    assert_eq!(buf.position_occupied(BytePosition(1383)), Some(false));
    assert_eq!(buf.head(), 0);

    let mut buf = WriteableBuffer::new(vec![0u8; 1385]);
    assert_eq!(buf.write(end, &[]), Some(1385..1385));
    assert_eq!(buf.position_occupied(BytePosition(1384)), Some(true));
    let mut buf = WriteableBuffer::new(vec![0u8; 1385]);
    buf.occupy(end);
    assert_eq!(buf.all_invalid_areas(), vec![area(0, 1)]);
}

#[test]
fn a_full_last_chunk_takes_no_short_payload() {
    let mut buf = WriteableBuffer::new(vec![0u8; MAX_PAYLOAD_LENGTH]);
    assert_eq!(buf.write(BytePosition(0), &[7u8; 100]), None);
    assert_eq!(buf.position_occupied(BytePosition(0)), Some(false));
    assert!(!buf.is_done());
    assert!(buf.write(BytePosition(0), &[7u8; MAX_PAYLOAD_LENGTH]).is_some());
    assert!(buf.is_done());
}

#[test]
fn a_chunk_of_the_wrong_size_is_not_written() {
    let mut into = WriteableBuffer::new(vec![0u8; 3000]);
    assert!(into.write(BytePosition(0), &[1u8; 10]).is_none());
    assert!(into.write(BytePosition(2768), &[1u8; MAX_PAYLOAD_LENGTH]).is_none());
    assert!(into.write(BytePosition(0), &[1u8; MAX_PAYLOAD_LENGTH]).is_some());
    assert_eq!(into.position_occupied(BytePosition(0)), Some(true));
    assert_eq!(into.position_occupied(BytePosition(1384)), Some(false));
    assert_eq!(into.position_occupied(BytePosition(100_000)), None);
}

#[test]
fn seeking_goes_to_the_start_of_a_chunk() {
    let mut from = ReadableBuffer::new(vec![0u8; 5000]);
    from.seek(BytePosition(3000));
    assert_eq!(from.current_position(), 2 * MAX_PAYLOAD_LENGTH);
    let mut into = WriteableBuffer::new(vec![0u8; 5000]);
    assert_eq!(into.seek_head(BytePosition(3000)), Some(true));
    assert_eq!(into.head(), 2 * MAX_PAYLOAD_LENGTH);
    assert_eq!(into.seek_head(BytePosition(0)), Some(false));
    assert_eq!(into.seek_head(BytePosition(6000)), None);
}

#[test]
fn the_head_passes_what_has_arrived() {
    let mut into = WriteableBuffer::new(vec![0u8; 5000]);
    into.write(BytePosition(1384), &[2u8; MAX_PAYLOAD_LENGTH]);
    assert_eq!(into.head(), 0);
    into.write(BytePosition(0), &[1u8; MAX_PAYLOAD_LENGTH]);
    assert_eq!(into.head(), 2 * MAX_PAYLOAD_LENGTH);
    assert_eq!(into.all_invalid_areas().len(), 1);
    assert_eq!(into.all_invalid_areas()[0].start, 2);
    assert_eq!(
        into.find_holes(BytePosition(5000)),
        vec![BytePosition(2768)]
    );
}
