//! The Reed-Solomon encoder and decoder.
use vstd::prelude::*;

use reed_solomon_simd::{ReedSolomonDecoder, ReedSolomonEncoder};

verus! {

/// An encoder of the `reed_solomon_simd` crate.
#[verifier::external_type_specification]
#[verifier::external_body]
pub struct ExReedSolomonEncoder(ReedSolomonEncoder);

/// A decoder of the `reed_solomon_simd` crate.
#[verifier::external_type_specification]
#[verifier::external_body]
pub struct ExReedSolomonDecoder(ReedSolomonDecoder);

/// The original shards that an encoder was given, in order.
pub uninterp spec fn encoder_shards(e: ReedSolomonEncoder) -> Seq<Seq<u8>>;

/// The numbers that an encoder was made with: of original shards, of recovery shards and
/// of bytes per shard.
pub uninterp spec fn encoder_limits(e: ReedSolomonEncoder) -> (int, int, int);

/// The original shards that a decoder was given, by index.
pub uninterp spec fn decoder_originals(d: ReedSolomonDecoder) -> Map<int, Seq<u8>>;

/// The recovery shards that a decoder was given, by index.
pub uninterp spec fn decoder_recoveries(d: ReedSolomonDecoder) -> Map<int, Seq<u8>>;

/// The numbers that a decoder was made with: of original shards, of recovery shards and
/// of bytes per shard.
pub uninterp spec fn decoder_limits(d: ReedSolomonDecoder) -> (int, int, int);

/// The recovery shards of the original shards.
pub uninterp spec fn rs_recovery(original_count: int, recovery_count: int, shards: Seq<Seq<u8>>) -> Seq<Seq<u8>>;

/// The missing original shards, each with its index, as they are computed from the
/// shards that are there.
pub uninterp spec fn rs_restored(original_count: int, recovery_count: int, originals: Map<int, Seq<u8>>, recoveries: Map<int, Seq<u8>>) -> Seq<(int, Seq<u8>)>;

/// No shards.
pub open spec fn no_shards() -> Map<int, Seq<u8>> {
    Map::empty()
}

/// Numbers that an encoder or decoder can be made with.
pub open spec fn supported(original_count: int, recovery_count: int, shard_bytes: int) -> bool {
    &&& 0 < original_count <= 255
    &&& 0 < recovery_count <= 255
    &&& 0 < shard_bytes <= 65536
    &&& shard_bytes % 2 == 0
}

/// The bytes of the shards.
pub open spec fn shard_views(shards: Seq<Vec<u8>>) -> Seq<Seq<u8>> {
    Seq::new(shards.len(), |i: int| shards[i]@)
}

/// The indexes and bytes of the shards.
pub open spec fn indexed_views(shards: Seq<(usize, Vec<u8>)>) -> Seq<(int, Seq<u8>)> {
    Seq::new(shards.len(), |i: int| (shards[i].0 as int, shards[i].1@))
}

/// Whether the shards that are there are those of the original shards `all`.
pub open spec fn shards_of(
    all: Seq<Seq<u8>>,
    limits: (int, int, int),
    originals: Map<int, Seq<u8>>,
    recoveries: Map<int, Seq<u8>>,
) -> bool {
    &&& all.len() == limits.0
    &&& forall|i: int| 0 <= i < all.len() ==> (#[trigger] all[i]).len() == limits.2
    &&& forall|i: int| #[trigger] originals.dom().contains(i) ==> originals[i] == all[i]
    &&& forall|i: int|
        #[trigger] recoveries.dom().contains(i) ==> recoveries[i] == rs_recovery(
            limits.0,
            limits.1,
            all,
        )[i]
}

/// Calls `ReedSolomonEncoder::new`. The encoder has no shards yet. The crate supports
/// any combination of 1 to 32768 original shards with as many recovery shards, and
/// shards of an even number of bytes.
#[verifier::external_body]
pub(crate) fn new_encoder(original_count: usize, recovery_count: usize, shard_bytes: usize) -> (e:
    ReedSolomonEncoder)
    requires
        supported(original_count as int, recovery_count as int, shard_bytes as int),
    ensures
        encoder_shards(e) == Seq::<Seq<u8>>::empty(),
        encoder_limits(e) == (original_count as int, recovery_count as int, shard_bytes as int),
{
    ReedSolomonEncoder::new(original_count, recovery_count, shard_bytes).unwrap()
}

/// Calls `ReedSolomonEncoder::add_original_shard`: the shard comes after those that the
/// encoder has. Not for an encoder that has all of its shards, nor for a shard of
/// another length.
#[verifier::external_body]
pub(crate) fn encoder_add(e: &mut ReedSolomonEncoder, shard: &Vec<u8>)
    requires
        encoder_shards(*old(e)).len() < encoder_limits(*old(e)).0,
        shard@.len() == encoder_limits(*old(e)).2,
    ensures
        encoder_shards(*final(e)) == encoder_shards(*old(e)).push(shard@),
        encoder_limits(*final(e)) == encoder_limits(*old(e)),
{
    e.add_original_shard(shard).unwrap();
}

/// Calls `ReedSolomonEncoder::encode` on an encoder that has all of its shards. There
/// are as many recovery shards as the encoder was made for, each as long as a shard.
#[verifier::external_body]
pub(crate) fn encode(e: ReedSolomonEncoder) -> (r: Vec<Vec<u8>>)
    requires
        encoder_shards(e).len() == encoder_limits(e).0,
    ensures
        shard_views(r@) == rs_recovery(
            encoder_limits(e).0,
            encoder_limits(e).1,
            encoder_shards(e),
        ),
        r@.len() == encoder_limits(e).1,
        forall|i: int| 0 <= i < r@.len() ==> (#[trigger] r@[i])@.len() == encoder_limits(e).2,
{
    let mut e = e;
    let result = e.encode().unwrap();
    result.recovery_iter().map(|shard| shard.to_vec()).collect()
}

/// Calls `ReedSolomonDecoder::new`. The decoder has no shards yet. The crate supports
/// any combination of 1 to 32768 original shards with as many recovery shards, and
/// shards of an even number of bytes.
#[verifier::external_body]
pub(crate) fn new_decoder(original_count: usize, recovery_count: usize, shard_bytes: usize) -> (d:
    ReedSolomonDecoder)
    requires
        supported(original_count as int, recovery_count as int, shard_bytes as int),
    ensures
        decoder_originals(d) == no_shards(),
        decoder_recoveries(d) == no_shards(),
        decoder_limits(d) == (original_count as int, recovery_count as int, shard_bytes as int),
{
    ReedSolomonDecoder::new(original_count, recovery_count, shard_bytes).unwrap()
}

/// Calls `ReedSolomonDecoder::add_original_shard`. The shard is taken if its index is
/// one of an original shard that the decoder does not have, and its length is right;
/// otherwise the decoder stays what it is.
#[verifier::external_body]
pub(crate) fn decoder_add_original(d: &mut ReedSolomonDecoder, index: usize, shard: &Vec<u8>) -> (taken:
    bool)
    requires
        index <= 255,
    ensures
        taken == (index < decoder_limits(*old(d)).0 && !decoder_originals(
            *old(d),
        ).dom().contains(index as int) && shard@.len() == decoder_limits(*old(d)).2),
        decoder_originals(*final(d)) == (if taken {
            decoder_originals(*old(d)).insert(index as int, shard@)
        } else {
            decoder_originals(*old(d))
        }),
        decoder_recoveries(*final(d)) == decoder_recoveries(*old(d)),
        decoder_limits(*final(d)) == decoder_limits(*old(d)),
{
    d.add_original_shard(index, shard).is_ok()
}

/// Calls `ReedSolomonDecoder::add_recovery_shard`. The shard is taken if its index is one
/// of a recovery shard that the decoder does not have, and its length is right;
/// otherwise the decoder stays what it is.
#[verifier::external_body]
pub(crate) fn decoder_add_recovery(d: &mut ReedSolomonDecoder, index: usize, shard: &Vec<u8>) -> (taken:
    bool)
    requires
        index <= 255,
    ensures
        taken == (index < decoder_limits(*old(d)).1 && !decoder_recoveries(
            *old(d),
        ).dom().contains(index as int) && shard@.len() == decoder_limits(*old(d)).2),
        decoder_recoveries(*final(d)) == (if taken {
            decoder_recoveries(*old(d)).insert(index as int, shard@)
        } else {
            decoder_recoveries(*old(d))
        }),
        decoder_originals(*final(d)) == decoder_originals(*old(d)),
        decoder_limits(*final(d)) == decoder_limits(*old(d)),
{
    d.add_recovery_shard(index, shard).is_ok()
}

/// Calls `ReedSolomonDecoder::decode`. It fails only where there are fewer shards, of
/// both kinds together, than original shards. What it gives are the missing original
/// shards, each once, by ascending index; they are right if the shards that are there
/// are.
#[verifier::external_body]
pub(crate) fn decode(d: ReedSolomonDecoder) -> (r: Option<Vec<(usize, Vec<u8>)>>)
    ensures
        r is Some <==> decoder_originals(d).dom().len() + decoder_recoveries(d).dom().len()
            >= decoder_limits(d).0,
        r matches Some(v) ==> {
            &&& indexed_views(v@) == rs_restored(
                decoder_limits(d).0,
                decoder_limits(d).1,
                decoder_originals(d),
                decoder_recoveries(d),
            )
            &&& forall|i: int|
                0 <= i < v@.len() ==> (#[trigger] v@[i]).1@.len() == decoder_limits(d).2
                    && v@[i].0 < decoder_limits(d).0 && !decoder_originals(d).dom().contains(
                    v@[i].0 as int,
                )
            &&& forall|i: int, j: int|
                0 <= i < j < v@.len() ==> (#[trigger] v@[i]).0 < (#[trigger] v@[j]).0
            &&& forall|n: int|
                0 <= n < decoder_limits(d).0 && !(#[trigger] decoder_originals(d).dom().contains(
                    n,
                )) ==> exists|i: int| 0 <= i < v@.len() && (#[trigger] v@[i]).0 == n
            &&& forall|all: Seq<Seq<u8>>, i: int|
                #[trigger] shards_of(
                    all,
                    decoder_limits(d),
                    decoder_originals(d),
                    decoder_recoveries(d),
                ) && 0 <= i < v@.len() ==> (#[trigger] v@[i]).1@ == all[v@[i].0 as int]
        },
{
    let mut d = d;
    let result = d.decode().ok()?;
    Some(result.restored_original_iter().map(|(i, shard)| (i, shard.to_vec())).collect())
}

} // verus!
