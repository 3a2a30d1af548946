use ubass::manager::fields::{BatchID, BytePosition, Options, SessionId};
use ubass::manager::identity::PublicKey;
use ubass::manager::key_exchange::{create, get_shared_secret, EphemeralSecret};
use ubass::manager::packets::DataPacket;
use ubass::manager::ranges::FECInfo;
use ubass::manager::types::Timestamp;
use ubass::packet_processor::encryption::{
    authenticate, decrypt, encrypt, tag, EncryptionWindow, COUNTER_SIZE, TAG_SIZE,
};
use ubass::packet_processor::fingerprint::fingerprint_of;
use ubass::utils::Flags;

const SESSION: SessionId = SessionId(0x0300_0000_0000_0000);

fn data(payload: &[u8]) -> DataPacket {
    *DataPacket::new(
        Options::none(),
        BatchID(1),
        FECInfo { batch_size: 4, batch_pos: 0, recovery_count: 0 },
        SESSION,
        BytePosition(0),
        payload.to_vec(),
        Timestamp(9),
    )
}

fn bytes32(text: &str) -> [u8; 32] {
    let mut out = [0u8; 32];
    for (i, byte) in out.iter_mut().enumerate() {
        *byte = u8::from_str_radix(&text[2 * i..2 * i + 2], 16).unwrap();
    }
    out
}

#[test]
fn both_sides_agree_on_a_key() {
    let alice = EphemeralSecret::from_bytes([0x11; 32]);
    let bob = EphemeralSecret::from_bytes([0x22; 32]);
    let (alice_public, bob_public) = (alice.public_key(), bob.public_key());
    assert_ne!(alice_public.0, bob_public.0);
    assert_ne!(bob_public.0, [0x22; 32]);
    let at_alice = get_shared_secret(alice, bob_public);
    assert_eq!(at_alice, get_shared_secret(bob, alice_public));
    assert_ne!(at_alice, bob_public.0);
}

#[test]
fn keys_are_those_of_the_standard() {
    // RFC 7748, section 6.1.
    let bob = EphemeralSecret::from_bytes(bytes32(
        "5dab087e624a8a4b79e17f8b83800ee66f3bb1292618b6fd1c2f8b27ff88e0eb",
    ));
    assert_eq!(
        bob.public_key().0,
        bytes32("de9edb7d7b7dc1b4d35b61c2ece435373f8343c85b78674dadfc7e146f882b4f")
    );
    let alice_public =
        PublicKey(bytes32("8520f0098930a754748b7ddcb43ef75a0dbf3a0d26381af4eba4a98eaa9b4e6a"));
    assert_eq!(
        get_shared_secret(bob, alice_public),
        bytes32("4a5d9d5ba4ce2de1728e3bf480350f25e07e21c947d19e3376f09b3c1e161742")
    );
}

#[test]
fn fresh_secrets_differ() {
    let (a, a_public) = create();
    let (b, b_public) = create();
    assert_ne!(a_public.0, b_public.0);
    assert_eq!(get_shared_secret(a, b_public), get_shared_secret(b, PublicKey(a_public.0)));
}

#[test]
fn a_tag_is_the_one_of_the_standard() {
    // RFC 8452, appendix C.2: no plaintext, no additional data.
    let mut key = [0u8; 32];
    key[0] = 1;
    let mut window = EncryptionWindow::new(key);
    let mut packet = Vec::new();
    tag(&mut packet, SESSION, &mut window);
    assert_eq!(
        packet[..TAG_SIZE],
        [
            0x07, 0xf5, 0xf4, 0x16, 0x9b, 0xbf, 0x55, 0xa8, 0x40, 0x0c, 0xd4, 0x7e, 0xa6, 0xfd,
            0x40, 0x0f
        ]
    );
    assert_eq!(packet[TAG_SIZE..], [0; COUNTER_SIZE]);
}

#[test]
fn a_tagged_packet_is_authentic_until_it_is_changed() {
    let mut window = EncryptionWindow::new([7; 32]);
    let mut packet = b"a packet".to_vec();
    tag(&mut packet, SESSION, &mut window);
    assert_eq!(packet.len(), 8 + TAG_SIZE + COUNTER_SIZE);
    let mut copy = packet.clone();
    assert!(authenticate(&mut copy, SESSION, &window));
    assert_eq!(copy, b"a packet");
    for i in 0..packet.len() {
        let mut bad = packet.clone();
        bad[i] ^= 1;
        assert!(!authenticate(&mut bad, SESSION, &window));
    }
    let mut elsewhere = packet.clone();
    assert!(!authenticate(&mut elsewhere, SessionId(1), &window));
    assert!(!authenticate(&mut packet, SESSION, &EncryptionWindow::new([8; 32])));
    assert!(!authenticate(&mut vec![0u8; 10], SESSION, &window));
}

#[test]
fn a_payload_comes_back_from_encryption() {
    let mut window = EncryptionWindow::new([7; 32]);
    let sealed = encrypt(data(b"so long"), SESSION, &mut window);
    assert_eq!(sealed.payload.len(), 7 + TAG_SIZE + COUNTER_SIZE);
    assert_ne!(&sealed.payload[..7], b"so long");
    let mut changed = data(b"");
    changed.payload = sealed.payload.clone();
    changed.byte_range_start = BytePosition(1384);
    assert!(decrypt(changed, SESSION, &window).is_err());
    let opened = decrypt(sealed, SESSION, &window).ok().unwrap();
    assert_eq!(opened.payload, b"so long");
}

#[test]
fn every_packet_has_its_own_nonce() {
    let mut window = EncryptionWindow::new([7; 32]);
    let first = encrypt(data(b"so long"), SESSION, &mut window);
    let second = encrypt(data(b"so long"), SESSION, &mut window);
    assert_ne!(first.payload, second.payload);
    assert_eq!(first.payload[7 + TAG_SIZE..], 0u64.to_be_bytes());
    assert_eq!(second.payload[7 + TAG_SIZE..], 1u64.to_be_bytes());
}

#[test]
fn fingerprints_are_digests() {
    // The published digest of no bytes.
    assert_eq!(fingerprint_of(b"").0, 0x99aa_06d3_0147_98d8_6001_c324_468d_497f);
    assert_ne!(fingerprint_of(b"a").0, fingerprint_of(b"b").0);
}
