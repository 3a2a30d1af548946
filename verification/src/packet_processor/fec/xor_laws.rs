//! What parity by exclusive or is good for: one lost packet per batch.
use vstd::prelude::*;

use crate::manager::types::Timestamp;
use crate::packet_processor::fec::data;
use crate::packet_processor::fec::data::FEC_DATA_SIZE;
use crate::packet_processor::fec::positions::PLACES;
use crate::packet_processor::fec::xor::{InboundView, OutboundView};

verus! {

/// All blocks combined.
pub open spec fn parity_of(blocks: Seq<Seq<u8>>) -> Seq<u8>
    decreases blocks.len(),
{
    if blocks.len() == 0 {
        data::zeros(FEC_DATA_SIZE as nat)
    } else {
        data::xor_bytes(parity_of(blocks.drop_last()), blocks.last())
    }
}

/// A batch on its way out after the blocks were sent in turn.
pub open spec fn outbound_after(batch_size: u8, blocks: Seq<Seq<u8>>) -> OutboundView
    decreases blocks.len(),
{
    if blocks.len() == 0 {
        OutboundView::empty(batch_size)
    } else {
        outbound_after(batch_size, blocks.drop_last()).added(blocks.last())
    }
}

/// A batch on its way in after packets came, in the order `arrived`, each with its
/// block.
pub open spec fn inbound_after(
    batch_size: u8,
    now: Timestamp,
    blocks: Seq<Seq<u8>>,
    arrived: Seq<u8>,
) -> InboundView
    decreases arrived.len(),
{
    if arrived.len() == 0 {
        InboundView::empty(batch_size, now)
    } else {
        let before = inbound_after(batch_size, now, blocks, arrived.drop_last());
        before.added(arrived.last(), blocks[arrived.last() as int])
    }
}

/// A batch is full when as many packets were sent as it has, and its parity is then
/// that of its packets.
pub proof fn full_batch_has_parity(batch_size: u8, blocks: Seq<Seq<u8>>)
    ensures
        outbound_after(batch_size, blocks).product == parity_of(blocks),
        outbound_after(batch_size, blocks).batch_size == batch_size,
        outbound_after(batch_size, blocks).full() <==> blocks.len() == batch_size,
        outbound_after(batch_size, blocks).current_size == blocks.len(),
    decreases blocks.len(),
{
    if blocks.len() > 0 {
        full_batch_has_parity(batch_size, blocks.drop_last());
    }
}

spec fn count(mask: Seq<bool>, n: int) -> int
    decreases n,
{
    if n <= 0 {
        0
    } else {
        count(mask, n - 1) + (if mask[n - 1] {
            1int
        } else {
            0
        })
    }
}

spec fn masked_xor(blocks: Seq<Seq<u8>>, mask: Seq<bool>, n: int, b: int) -> u8
    decreases n,
{
    if n <= 0 {
        0
    } else {
        masked_xor(blocks, mask, n - 1, b) ^ (if mask[n - 1] {
            blocks[n - 1][b]
        } else {
            0
        })
    }
}

proof fn lemma_xor_swap(a: u8, b: u8, c: u8)
    ensures
        (a ^ b) ^ c == (a ^ c) ^ b,
        a ^ 0 == a,
        0 ^ a == a,
        (a ^ b) ^ a == b,
        a ^ (a ^ b) == b,
{
    assert((a ^ b) ^ c == (a ^ c) ^ b) by (bit_vector);
    assert(a ^ 0 == a) by (bit_vector);
    assert(0 ^ a == a) by (bit_vector);
    assert((a ^ b) ^ a == b) by (bit_vector);
    assert(a ^ (a ^ b) == b) by (bit_vector);
}

proof fn lemma_count_update(mask: Seq<bool>, n: int, j: int)
    requires
        0 <= j < mask.len(),
        n <= mask.len(),
        !mask[j],
    ensures
        count(mask.update(j, true), n) == count(mask, n) + (if j < n {
            1int
        } else {
            0
        }),
    decreases n,
{
    if n > 0 {
        lemma_count_update(mask, n - 1, j);
    }
}

proof fn lemma_count_bound(mask: Seq<bool>, n: int)
    requires
        0 <= n <= mask.len(),
    ensures
        0 <= count(mask, n) <= n,
        count(mask, n) == n ==> forall|j: int| 0 <= j < n ==> mask[j],
    decreases n,
{
    if n > 0 {
        lemma_count_bound(mask, n - 1);
    }
}

proof fn lemma_count_all(mask: Seq<bool>, n: int)
    requires
        0 <= n <= mask.len(),
        forall|j: int| 0 <= j < n ==> mask[j],
    ensures
        count(mask, n) == n,
    decreases n,
{
    if n > 0 {
        lemma_count_all(mask, n - 1);
    }
}

proof fn lemma_xor_update(blocks: Seq<Seq<u8>>, mask: Seq<bool>, n: int, j: int, b: int)
    requires
        0 <= j < mask.len(),
        n <= mask.len(),
        !mask[j],
    ensures
        masked_xor(blocks, mask.update(j, true), n, b) == (if j < n {
            masked_xor(blocks, mask, n, b) ^ blocks[j][b]
        } else {
            masked_xor(blocks, mask, n, b)
        }),
    decreases n,
{
    if n > 0 {
        lemma_xor_update(blocks, mask, n - 1, j, b);
        let rest = masked_xor(blocks, mask, n - 1, b);
        if j == n - 1 {
            lemma_xor_swap(rest, 0, 0);
        } else if j < n - 1 {
            let last = if mask[n - 1] {
                blocks[n - 1][b]
            } else {
                0
            };
            lemma_xor_swap(rest, blocks[j][b], last);
        }
    }
}

proof fn lemma_parity_masked(blocks: Seq<Seq<u8>>, mask: Seq<bool>, b: int)
    requires
        blocks.len() <= mask.len(),
        forall|j: int| 0 <= j < blocks.len() ==> mask[j],
        0 <= b < FEC_DATA_SIZE,
    ensures
        parity_of(blocks).len() == FEC_DATA_SIZE,
        parity_of(blocks)[b] == masked_xor(blocks, mask, blocks.len() as int, b),
    decreases blocks.len(),
{
    if blocks.len() > 0 {
        lemma_parity_masked(blocks.drop_last(), mask, b);
        lemma_masked_prefix(blocks, mask, blocks.len() - 1, b);
    }
}

proof fn lemma_masked_prefix(blocks: Seq<Seq<u8>>, mask: Seq<bool>, n: int, b: int)
    requires
        0 <= n < blocks.len() <= mask.len(),
    ensures
        masked_xor(blocks, mask, n, b) == masked_xor(blocks.drop_last(), mask, n, b),
    decreases n,
{
    if n > 0 {
        lemma_masked_prefix(blocks, mask, n - 1, b);
    }
}

proof fn lemma_masked_zero(blocks: Seq<Seq<u8>>, n: int, b: int)
    requires
        0 <= n <= PLACES,
    ensures
        masked_xor(blocks, Seq::new(PLACES as nat, |i: int| false), n, b) == 0,
        count(Seq::new(PLACES as nat, |i: int| false), n) == 0,
    decreases n,
{
    if n > 0 {
        lemma_masked_zero(blocks, n - 1, b);
        lemma_xor_swap(0, 0, 0);
    }
}

spec fn tracks(v: InboundView, blocks: Seq<Seq<u8>>) -> bool {
    &&& v.positions.mask.len() == PLACES
    &&& v.batch_size == blocks.len()
    &&& v.data_received == count(v.positions.mask, blocks.len() as int)
    &&& v.product.len() == FEC_DATA_SIZE
    &&& forall|b: int|
        0 <= b < FEC_DATA_SIZE ==> #[trigger] v.product[b] == masked_xor(
            blocks,
            v.positions.mask,
            blocks.len() as int,
            b,
        )
}

proof fn lemma_tracks(batch_size: u8, now: Timestamp, blocks: Seq<Seq<u8>>, arrived: Seq<u8>)
    requires
        blocks.len() == batch_size,
        forall|i: int| 0 <= i < arrived.len() ==> #[trigger] arrived[i] < batch_size,
    ensures
        tracks(inbound_after(batch_size, now, blocks, arrived), blocks),
        forall|j: u8|
            inbound_after(batch_size, now, blocks, arrived).positions.mask[j as int]
                <==> #[trigger] arrived.contains(j),
        inbound_after(batch_size, now, blocks, arrived).parity is None,
    decreases arrived.len(),
{
    let v = inbound_after(batch_size, now, blocks, arrived);
    if arrived.len() == 0 {
        assert forall|b: int| 0 <= b < FEC_DATA_SIZE implies #[trigger] v.product[b] == masked_xor(
            blocks,
            v.positions.mask,
            blocks.len() as int,
            b,
        ) by {
            lemma_masked_zero(blocks, blocks.len() as int, b);
        }
        lemma_masked_zero(blocks, blocks.len() as int, 0);
    } else {
        let rest = arrived.drop_last();
        let last = arrived.last();
        assert forall|i: int| 0 <= i < rest.len() implies #[trigger] rest[i] < batch_size by {
            assert(rest[i] == arrived[i]);
        }
        lemma_tracks(batch_size, now, blocks, rest);
        let w = inbound_after(batch_size, now, blocks, rest);
        let mask = w.positions.mask;
        assert(arrived[arrived.len() - 1] < batch_size);
        if w.wants(last) {
            lemma_count_update(mask, blocks.len() as int, last as int);
            assert forall|b: int| 0 <= b < FEC_DATA_SIZE implies #[trigger] v.product[b]
                == masked_xor(blocks, v.positions.mask, blocks.len() as int, b) by {
                assert(w.product[b] == masked_xor(blocks, mask, blocks.len() as int, b));
                lemma_xor_update(blocks, mask, blocks.len() as int, last as int, b);
            }
        } else {
            lemma_count_bound(mask, blocks.len() as int);
            assert(mask[last as int]);
        }
        assert forall|j: u8| v.positions.mask[j as int] <==> #[trigger] arrived.contains(j) by {
            assert(arrived =~= rest.push(last));
            assert(rest.contains(j) ==> arrived.contains(j)) by {
                if rest.contains(j) {
                    let k = choose|k: int| 0 <= k < rest.len() && rest[k] == j;
                    assert(arrived[k] == j);
                }
            }
            assert(arrived[arrived.len() - 1] == last);
            assert(mask[j as int] <==> rest.contains(j));
            if arrived.contains(j) && j != last {
                let k = choose|k: int| 0 <= k < arrived.len() && arrived[k] == j;
                assert(rest[k] == j);
            }
        }
    }
}

/// A batch of which every packet but one came, in any order and any number of times,
/// gives that one back from the parity.
pub proof fn parity_recovers_lost_packet(
    batch_size: u8,
    now: Timestamp,
    blocks: Seq<Seq<u8>>,
    arrived: Seq<u8>,
    lost: u8,
)
    requires
        blocks.len() == batch_size,
        forall|i: int| 0 <= i < blocks.len() ==> (#[trigger] blocks[i]).len() == FEC_DATA_SIZE,
        lost < batch_size,
        forall|j: u8| #[trigger] arrived.contains(j) <==> j < batch_size && j != lost,
    ensures
        inbound_after(batch_size, now, blocks, arrived).with_parity(
            parity_of(blocks),
        ).recovered() == Some(blocks[lost as int]),
{
    assert forall|i: int| 0 <= i < arrived.len() implies #[trigger] arrived[i] < batch_size by {
        assert(arrived.contains(arrived[i]));
    }
    lemma_tracks(batch_size, now, blocks, arrived);
    let v = inbound_after(batch_size, now, blocks, arrived);
    let mask = v.positions.mask;
    let full = mask.update(lost as int, true);
    let n = blocks.len() as int;
    assert(!arrived.contains(lost));
    assert forall|j: int| 0 <= j < n implies full[j] by {
        assert(arrived.contains(j as u8) <==> j != lost);
    }
    lemma_count_update(mask, n, lost as int);
    lemma_count_all(full, n);
    let out = v.with_parity(parity_of(blocks)).recovered();
    lemma_parity_masked(blocks, full, 0);
    assert(out is Some);
    assert(out->0 =~= blocks[lost as int]) by {
        assert forall|b: int| 0 <= b < FEC_DATA_SIZE implies out->0[b] == blocks[lost as int][b] by {
            lemma_parity_masked(blocks, full, b);
            lemma_xor_update(blocks, mask, n, lost as int, b);
            assert(v.product[b] == masked_xor(blocks, mask, n, b));
            lemma_xor_swap(v.product[b], blocks[lost as int][b], 0);
        }
    }
}

} // verus!
