//! Track ids and pseudo-random payloads for measurement runs.
//!
//! A measuring receiver asks for a track whose id is a seed and a length; the
//! sender answers with that many bytes of the generator that both ends share,
//! and the receiver checks what arrived against the same generator.
use vstd::prelude::*;

use crate::wire;

verus! {

/// Length of an encoded track id: eight bytes of seed, four of length.
pub const TRACK_ID_LEN: usize = 12;

/// The encoded form of a seed and a length.
pub open spec fn track_id(seed: u64, length: u32) -> Seq<u8> {
    wire::be64(seed) + wire::be32(length)
}

/// Encodes a seed and a length, both big-endian.
pub fn encode_track_id(seed: u64, length: u32) -> (out: Vec<u8>)
    ensures
        out@ == track_id(seed, length),
        out@.len() == TRACK_ID_LEN,
{
    let mut out: Vec<u8> = Vec::new();
    wire::put_u64(&mut out, seed);
    wire::put_u32(&mut out, length);
    assert(out@ =~= track_id(seed, length));
    out
}

/// Decodes a seed and a length. A slice of any other length than
/// [`TRACK_ID_LEN`] is no track id.
pub fn decode_track_id(bytes: &[u8]) -> (r: Option<(u64, u32)>)
    ensures
        r == (if bytes@.len() == TRACK_ID_LEN {
            Some((wire::rd64(bytes@, 0), wire::rd32(bytes@, 8)))
        } else {
            None
        }),
{
    if bytes.len() != TRACK_ID_LEN {
        return None;
    }
    Some((wire::get_u64(bytes, 0), wire::get_u32(bytes, 8)))
}

/// Decoding an encoded track id gives back the seed and the length.
pub proof fn track_id_round_trips(seed: u64, length: u32)
    ensures
        track_id(seed, length).len() == TRACK_ID_LEN,
        wire::rd64(track_id(seed, length), 0) == seed,
        wire::rd32(track_id(seed, length), 8) == length,
{
    let s = track_id(seed, length);
    assert(s.subrange(0, 8) =~= wire::be64(seed));
    assert(s.subrange(8, 12) =~= wire::be32(length));
    wire::lemma_rd64(s, 0, seed);
    wire::lemma_rd32(s, 8, length);
}

/// Where the generator stands after `n` steps from `seed`.
pub open spec fn prg_state(seed: u64, n: nat) -> u64
    decreases n,
{
    if n == 0 {
        seed
    } else {
        prg_state(seed, (n - 1) as nat).wrapping_add(0x9E37_79B9_7F4A_7C15u64)
    }
}

/// The SplitMix64 output function: the number drawn at generator state `state`.
pub open spec fn splitmix64_mix(state: u64) -> u64 {
    let a = (state ^ (state >> 30u64)).wrapping_mul(0xBF58_476D_1CE4_E5B9u64);
    let b = (a ^ (a >> 27u64)).wrapping_mul(0x94D0_49BB_1331_11EBu64);
    b ^ (b >> 31u64)
}

/// The `i`-th byte of the stream for `seed`: the two low bytes of the `i`-th
/// number drawn, mixed into one.
pub open spec fn prg_byte(seed: u64, i: nat) -> u8 {
    let next = splitmix64_mix(prg_state(seed, i + 1));
    (next as u8) ^ ((next >> 8u64) as u8)
}

/// The first `length` bytes of the stream for `seed`.
pub open spec fn prg_stream(seed: u64, length: nat) -> Seq<u8> {
    Seq::new(length, |i: int| prg_byte(seed, i as nat))
}

/// One step of SplitMix64.
pub fn splitmix64_step(state: &mut u64) -> (next: u64)
    ensures
        *final(state) == (*old(state)).wrapping_add(0x9E37_79B9_7F4A_7C15u64),
        next == splitmix64_mix(*final(state)),
{
    *state = state.wrapping_add(0x9E37_79B9_7F4A_7C15u64);
    let mut z: u64 = *state;
    z = (z ^ (z >> 30u64)).wrapping_mul(0xBF58_476D_1CE4_E5B9u64);
    z = (z ^ (z >> 27u64)).wrapping_mul(0x94D0_49BB_1331_11EBu64);
    z ^ (z >> 31u64)
}

/// Generates the first `length` bytes of the stream for `seed`.
pub fn generate_prg_buffer(seed: u64, length: usize) -> (buf: Vec<u8>)
    ensures
        buf@ == prg_stream(seed, length as nat),
{
    let mut state: u64 = seed;
    let mut buf: Vec<u8> = Vec::new();
    let mut i: usize = 0;
    while i < length
        invariant
            i <= length,
            state == prg_state(seed, i as nat),
            buf@ == prg_stream(seed, i as nat),
        decreases length - i,
    {
        let next: u64 = splitmix64_step(&mut state);
        assert(state == prg_state(seed, (i + 1) as nat));
        buf.push((next as u8) ^ ((next >> 8u64) as u8));
        i += 1;
        assert(buf@ =~= prg_stream(seed, i as nat));
    }
    buf
}

/// Whether `received` is the stream for `seed`, as far as it goes.
pub fn verify_prg(seed: u64, received: &[u8]) -> (ok: bool)
    ensures
        ok == (received@ == prg_stream(seed, received@.len())),
{
    let mut state: u64 = seed;
    let mut i: usize = 0;
    while i < received.len()
        invariant
            i <= received.len(),
            state == prg_state(seed, i as nat),
            forall|k: int| 0 <= k < i ==> received@[k] == prg_byte(seed, k as nat),
        decreases received.len() - i,
    {
        let next: u64 = splitmix64_step(&mut state);
        assert(state == prg_state(seed, (i + 1) as nat));
        if received[i] != ((next as u8) ^ ((next >> 8u64) as u8)) {
            assert(received@[i as int] != prg_stream(seed, received@.len())[i as int]);
            return false;
        }
        i += 1;
    }
    assert(received@ =~= prg_stream(seed, received@.len()));
    true
}

/// A buffer that differs from the stream in any byte is told apart from it.
pub proof fn tampered_stream_differs(seed: u64, received: Seq<u8>, at: int)
    requires
        0 <= at < received.len(),
        received[at] != prg_byte(seed, at as nat),
    ensures
        received != prg_stream(seed, received.len()),
{
    assert(prg_stream(seed, received.len())[at] == prg_byte(seed, at as nat));
}

/// The stream of a seed begins with the shorter streams of the same seed.
pub proof fn streams_of_a_seed_agree(seed: u64, shorter: nat, longer: nat)
    requires
        shorter <= longer,
    ensures
        prg_stream(seed, longer).len() == longer,
        prg_stream(seed, longer).take(shorter as int) == prg_stream(seed, shorter),
{
    assert(prg_stream(seed, longer).take(shorter as int) =~= prg_stream(seed, shorter));
}

/// The generator can be taken up where it was left.
pub proof fn generator_goes_on(seed: u64, first: nat, more: nat)
    ensures
        prg_state(seed, first + more) == prg_state(prg_state(seed, first), more),
    decreases more,
{
    if more > 0 {
        generator_goes_on(seed, first, (more - 1) as nat);
    }
}

} // verus!
