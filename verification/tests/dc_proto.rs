use ubass::api::dc_proto::{
    decode_track_id, encode_track_id, generate_prg_buffer, splitmix64_step, verify_prg, TRACK_ID_LEN,
};

#[test]
fn track_id_round_trip() {
    let bytes = encode_track_id(0xDEAD_BEEF_CAFE_F00D, 1_234_567);
    let (seed, length) = decode_track_id(&bytes).unwrap();
    assert_eq!(seed, 0xDEAD_BEEF_CAFE_F00D);
    assert_eq!(length, 1_234_567);
}

#[test]
fn decode_rejects_wrong_length() {
    assert!(decode_track_id(&[]).is_none());
    assert!(decode_track_id(&[0u8; TRACK_ID_LEN - 1]).is_none());
    assert!(decode_track_id(&[0u8; TRACK_ID_LEN + 1]).is_none());
}

#[test]
fn generate_then_verify_round_trips() {
    let seed = 0xABCD_1234_5678_9EF0;
    let buf = generate_prg_buffer(seed, 4096);
    assert!(verify_prg(seed, &buf));
    let mut tampered = buf;
    tampered[2048] ^= 0xff;
    assert!(!verify_prg(seed, &tampered));
}

#[test]
fn different_seeds_produce_different_buffers() {
    let a = generate_prg_buffer(1, 256);
    let b = generate_prg_buffer(2, 256);
    assert_ne!(*a, *b);
}

#[test]
fn track_id_bytes_are_big_endian() {
    assert_eq!(
        encode_track_id(0x0102_0304_0506_0708, 0x090A_0B0C),
        vec![1, 2, 3, 4, 5, 6, 7, 8, 9, 10, 11, 12]
    );
}

#[test]
fn splitmix64_first_draws_from_zero() {
    let mut state = 0u64;
    assert_eq!(splitmix64_step(&mut state), 0xE220_A839_7B1D_CDAF);
    assert_eq!(splitmix64_step(&mut state), 0x6E78_9E6A_A1B9_65F4);
    assert_eq!(state, 0x9E37_79B9_7F4A_7C15u64.wrapping_mul(2));
}

#[test]
fn empty_stream_is_empty_and_verifies() {
    assert!(generate_prg_buffer(7, 0).is_empty());
    assert!(verify_prg(7, &[]));
}
