//! Giving up on batches that are too old.
use vstd::prelude::*;

use crate::manager::fields::{BatchID, BytePosition, SessionId};
use crate::manager::types::Timestamp;
use crate::packet_processor::fec::positions;
use crate::utils::table::Table;

verus! {

/// A batch on its way in, which has an age and knows what it misses.
pub trait Batch: Sized {
    /// Whether the batch is one.
    spec fn valid(&self) -> bool;

    /// When the first packet of the batch came.
    spec fn born(&self) -> Timestamp;

    /// The positions that the batch misses.
    spec fn misses(&self) -> Seq<BytePosition>;

    /// When the first packet of the batch came.
    fn created(&self) -> (t: Timestamp)
        ensures
            t == self.born(),
    ;

    /// The positions that the batch misses.
    fn missing_positions(&self) -> (missing: Vec<BytePosition>)
        requires
            self.valid(),
        ensures
            missing@ == self.misses(),
    ;
}

/// A batch that was given up: its session, itself and the positions that it misses.
pub type Pruned = (SessionId, BatchID, Vec<BytePosition>);

/// The key of a batch that was given up.
pub open spec fn pruned_key(entry: Pruned) -> u128 {
    positions::batch_key(entry.1, entry.0)
}

/// Whether `key` names a batch that is older than `ttl_ms`.
pub open spec fn expired<B: Batch>(
    batches: Map<u128, B>,
    key: u128,
    ttl_ms: u64,
    now: Timestamp,
) -> bool {
    batches.dom().contains(key) && batches[key].born().older_than(ttl_ms, now)
}

/// Whether every key names a batch.
pub open spec fn valid_batches<B: Batch>(batches: Map<u128, B>) -> bool {
    forall|k: u128|
        #[trigger] batches.dom().contains(k) ==> batches[k].valid() && positions::is_batch_key(k)
}

/// Whether `out` holds every batch that is older than `ttl_ms`, each once.
pub open spec fn lists_expired<B: Batch>(
    out: Seq<Pruned>,
    batches: Map<u128, B>,
    ttl_ms: u64,
    now: Timestamp,
) -> bool {
    &&& forall|i: int|
        0 <= i < out.len() ==> expired(batches, pruned_key(#[trigger] out[i]), ttl_ms, now)
            && out[i].2@ == batches[pruned_key(out[i])].misses()
    &&& forall|i: int, j: int|
        0 <= i < j < out.len() ==> pruned_key(#[trigger] out[i]) != pruned_key(#[trigger] out[j])
    &&& forall|k: u128|
        #[trigger] expired(batches, k, ttl_ms, now) ==> exists|i: int|
            0 <= i < out.len() && pruned_key(#[trigger] out[i]) == k
}

/// The batches that are not older than `ttl_ms`.
pub open spec fn unexpired<B: Batch>(
    batches: Map<u128, B>,
    ttl_ms: u64,
    now: Timestamp,
) -> Map<u128, B> {
    batches.restrict(
        batches.dom().filter(|k: u128| !expired(batches, k, ttl_ms, now)),
    )
}

/// Takes out every batch that is older than `ttl_ms`, and says which packets each of
/// them misses. The batches come in no particular order.
pub fn prune_batches<B: Batch>(
    batches: &mut Table<u128, B>,
    ttl_ms: u64,
    now: Timestamp,
) -> (out: Vec<Pruned>)
    requires
        valid_batches(old(batches)@),
    ensures
        final(batches)@ == unexpired(old(batches)@, ttl_ms, now),
        lists_expired(out@, old(batches)@, ttl_ms, now),
{
    let ghost all = batches@;
    let keys: Vec<u128> = batches.keys();
    let mut out: Vec<Pruned> = Vec::new();
    let mut i: usize = 0;
    assert forall|k: int| 0 <= k < keys@.len() implies all.dom().contains(#[trigger] keys@[k]) by {
        assert(keys@.contains(keys@[k]));
    }
    while i < keys.len()
        invariant
            i <= keys.len(),
            keys@.no_duplicates(),
            valid_batches(all),
            forall|k: int| 0 <= k < keys@.len() ==> all.dom().contains(#[trigger] keys@[k]),
            forall|k: u128| keys@.contains(k) <==> all.dom().contains(k),
            forall|key: u128|
                #[trigger] batches@.dom().contains(key) <==> all.dom().contains(key) && !(
                expired(all, key, ttl_ms, now) && exists|k: int|
                    0 <= k < i && #[trigger] keys@[k] == key),
            forall|key: u128|
                #[trigger] batches@.dom().contains(key) ==> batches@[key] == all[key],
            forall|j: int|
                0 <= j < out@.len() ==> expired(all, pruned_key(#[trigger] out@[j]), ttl_ms, now)
                    && out@[j].2@ == all[pruned_key(out@[j])].misses(),
            forall|j: int|
                0 <= j < out@.len() ==> exists|k: int|
                    0 <= k < i && #[trigger] keys@[k] == pruned_key(#[trigger] out@[j]),
            forall|j: int, l: int|
                0 <= j < l < out@.len() ==> pruned_key(#[trigger] out@[j]) != pruned_key(
                    #[trigger] out@[l],
                ),
            forall|k: int|
                0 <= k < i && expired(all, #[trigger] keys@[k], ttl_ms, now) ==> exists|j: int|
                    0 <= j < out@.len() && pruned_key(#[trigger] out@[j]) == keys@[k],
        decreases keys.len() - i,
    {
        let key: u128 = keys[i];
        let ghost before = batches@;
        let ghost out_before = out@;
        assert(forall|k: int| 0 <= k < i ==> #[trigger] keys@[k] != keys@[i as int]);
        assert(before.dom().contains(key));
        match batches.remove(key) {
            Some(batch) => {
                if batch.created().been_longer_than(ttl_ms, now) {
                    let (session_id, batch_id) = positions::ids_of(key);
                    out.push((session_id, batch_id, batch.missing_positions()));
                    assert(pruned_key(out@.last()) == key);
                    assert forall|j: int| 0 <= j < out_before.len() implies pruned_key(
                        #[trigger] out_before[j],
                    ) != key by {
                        let k = choose|k: int| 0 <= k < i && keys@[k] == pruned_key(out_before[j]);
                        assert(keys@[k] != keys@[i as int]);
                    }
                } else {
                    batches.insert(key, batch);
                    assert(batches@ =~= before);
                }
            },
            None => {},
        }
        assert forall|j: int| 0 <= j < out_before.len() implies out@[j] == out_before[j] by {};
        i += 1;
        assert forall|q: u128|
            #[trigger] batches@.dom().contains(q) <==> all.dom().contains(q) && !(expired(
                all,
                q,
                ttl_ms,
                now,
            ) && exists|k: int| 0 <= k < i && #[trigger] keys@[k] == q) by {
            assert(before.dom().contains(q) <==> all.dom().contains(q) && !(expired(
                all,
                q,
                ttl_ms,
                now,
            ) && exists|k: int| 0 <= k < i - 1 && #[trigger] keys@[k] == q));
            if q == key {
                assert(keys@[i - 1] == q);
            } else if exists|k: int| 0 <= k < i && #[trigger] keys@[k] == q {
                let k = choose|k: int| 0 <= k < i && #[trigger] keys@[k] == q;
                assert(k < i - 1);
            }
        }
        assert forall|k: int|
            0 <= k < i && expired(all, #[trigger] keys@[k], ttl_ms, now) implies exists|j: int|
            0 <= j < out@.len() && pruned_key(#[trigger] out@[j]) == keys@[k] by {
            if k == i - 1 {
                assert(pruned_key(out@[out@.len() - 1]) == key);
            } else {
                let j = choose|j: int|
                    0 <= j < out_before.len() && pruned_key(#[trigger] out_before[j]) == keys@[k];
                assert(pruned_key(out@[j]) == keys@[k]);
            }
        }
        assert forall|j: int| 0 <= j < out@.len() implies exists|k: int|
            0 <= k < i && #[trigger] keys@[k] == pruned_key(#[trigger] out@[j]) by {
            if j < out_before.len() {
                let k = choose|k: int| 0 <= k < i - 1 && keys@[k] == pruned_key(out_before[j]);
                assert(keys@[k] == pruned_key(out@[j]));
            } else {
                assert(keys@[i - 1] == pruned_key(out@[j]));
            }
        }
    }
    assert forall|q: u128| expired(all, q, ttl_ms, now) implies exists|k: int|
        0 <= k < keys@.len() && #[trigger] keys@[k] == q by {
        assert(keys@.contains(q));
    }
    assert(batches@ =~= unexpired(all, ttl_ms, now));
    out
}

} // verus!
