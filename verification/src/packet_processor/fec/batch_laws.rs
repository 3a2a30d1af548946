//! What a batch is good for from one end to the other: the parity that follows it, the packets
//! that come back, and what is known of it when it is given up.
use vstd::prelude::*;

use crate::manager::fields::{BatchID, BytePosition, FecScheme, SessionId, MAX_PAYLOAD_LENGTH};
use crate::manager::packets::ParityPacket;
use crate::manager::ranges::FECInfo;
use crate::manager::types::Timestamp;
use crate::packet_processor::fec::codec;
use crate::packet_processor::fec::data;
use crate::packet_processor::fec::data::{RecoverdPacket, FEC_DATA_SIZE};
use crate::packet_processor::fec::positions;
use crate::packet_processor::fec::positions::{PositionsView, PLACES};
use crate::packet_processor::fec::pruning::Pruned;
use crate::packet_processor::fec::reed_solomon;
use crate::packet_processor::fec::xor;
use crate::packet_processor::fec::xor_laws;
use crate::packet_processor::fec::Fec;

verus! {

/// Whether the blocks of a batch were sent in turn, the states in between being `states` and
/// what came out being `out`.
pub open spec fn sent_in_turn(
    states: Seq<Fec>,
    out: Seq<Option<Vec<ParityPacket>>>,
    scheme: FecScheme,
    batch_id: BatchID,
    session: SessionId,
    info: FECInfo,
    blocks: Seq<Seq<u8>>,
    now: Timestamp,
) -> bool {
    &&& states.len() == blocks.len() + 1
    &&& out.len() == blocks.len()
    &&& forall|i: int|
        0 <= i < blocks.len() ==> (#[trigger] states[i]).sends(
            states[i + 1],
            scheme,
            batch_id,
            session,
            info,
            blocks[i],
            now,
            out[i],
        )
}

proof fn lemma_xor_sent(
    states: Seq<Fec>,
    out: Seq<Option<Vec<ParityPacket>>>,
    batch_id: BatchID,
    session: SessionId,
    info: FECInfo,
    blocks: Seq<Seq<u8>>,
    now: Timestamp,
    i: int,
)
    requires
        sent_in_turn(states, out, FecScheme::Xor, batch_id, session, info, blocks, now),
        blocks.len() <= info.batch_size,
        states[0].xor.outbound_at(positions::batch_key(batch_id, session)) is None,
        0 <= i < blocks.len(),
    ensures
        ({
            let key = positions::batch_key(batch_id, session);
            &&& i > 0 ==> states[i].xor.outbound_at(key) == Some(
                xor_laws::outbound_after(info.batch_size, blocks.take(i)),
            )
            &&& out[i] is Some <==> i + 1 == info.batch_size
        }),
    decreases i,
{
    let key = positions::batch_key(batch_id, session);
    assert(blocks.take(i + 1).drop_last() =~= blocks.take(i));
    assert(blocks.take(i + 1).last() == blocks[i]);
    xor_laws::full_batch_has_parity(info.batch_size, blocks.take(i + 1));
    assert(xor_laws::outbound_after(info.batch_size, blocks.take(i + 1))
        == xor_laws::outbound_after(info.batch_size, blocks.take(i)).added(blocks[i]));
    if i > 0 {
        lemma_xor_sent(states, out, batch_id, session, info, blocks, now, i - 1);
        assert(blocks.take(i).drop_last() =~= blocks.take(i - 1));
        assert(blocks.take(i).last() == blocks[i - 1]);
        xor_laws::full_batch_has_parity(info.batch_size, blocks.take(i));
        assert(xor_laws::outbound_after(info.batch_size, blocks.take(i))
            == xor_laws::outbound_after(info.batch_size, blocks.take(i - 1)).added(blocks[i - 1]));
        assert(states[i - 1].sends(
            states[i - 1 + 1],
            FecScheme::Xor,
            batch_id,
            session,
            info,
            blocks[i - 1],
            now,
            out[i - 1],
        ));
        if i - 1 == 0 {
            assert(xor_laws::outbound_after(info.batch_size, blocks.take(0))
                == xor::OutboundView::empty(info.batch_size));
        }
    } else {
        assert(xor_laws::outbound_after(info.batch_size, blocks.take(0))
            == xor::OutboundView::empty(info.batch_size));
    }
    assert(states[i].sends(
        states[i + 1],
        FecScheme::Xor,
        batch_id,
        session,
        info,
        blocks[i],
        now,
        out[i],
    ));
}

/// The last packet of a batch, and no other, is followed by one parity packet, of the batch and
/// the session, which is all of the batch's blocks combined.
pub proof fn a_full_batch_is_followed_by_its_parity(
    states: Seq<Fec>,
    out: Seq<Option<Vec<ParityPacket>>>,
    batch_id: BatchID,
    session: SessionId,
    info: FECInfo,
    blocks: Seq<Seq<u8>>,
    now: Timestamp,
    i: int,
)
    requires
        sent_in_turn(states, out, FecScheme::Xor, batch_id, session, info, blocks, now),
        blocks.len() <= info.batch_size,
        states[0].xor.outbound_at(positions::batch_key(batch_id, session)) is None,
        0 <= i < blocks.len(),
    ensures
        out[i] is Some <==> i + 1 == info.batch_size,
        out[i] matches Some(parity) ==> parity@.len() == 1 && parity@[0].payload@
            == xor_laws::parity_of(blocks) && parity@[0].batch_id == batch_id
            && parity@[0].session_id == session && parity@[0].fec_info.batch_size
            == info.batch_size,
{
    lemma_xor_sent(states, out, batch_id, session, info, blocks, now, i);
    assert(states[i].sends(
        states[i + 1],
        FecScheme::Xor,
        batch_id,
        session,
        info,
        blocks[i],
        now,
        out[i],
    ));
    if out[i] is Some {
        assert(blocks.take(i + 1) =~= blocks);
        assert(blocks.take(i + 1).drop_last() =~= blocks.take(i));
        assert(blocks.take(i + 1).last() == blocks[i]);
        xor_laws::full_batch_has_parity(info.batch_size, blocks);
        assert(xor_laws::outbound_after(info.batch_size, blocks) == xor_laws::outbound_after(
            info.batch_size,
            blocks.take(i),
        ).added(blocks[i]));
        if i == 0 {
            assert(xor_laws::outbound_after(info.batch_size, blocks.take(0))
                == xor::OutboundView::empty(info.batch_size));
        }
    }
}

/// Whether packets of a batch came in turn, those at the places `arrived`, each with its block.
pub open spec fn came_in_turn(
    states: Seq<Fec>,
    told: Seq<bool>,
    batch_id: BatchID,
    session: SessionId,
    infos: Seq<FECInfo>,
    blocks: Seq<Seq<u8>>,
    now: Timestamp,
) -> bool {
    &&& states.len() == infos.len() + 1
    &&& told.len() == infos.len()
    &&& forall|j: int|
        0 <= j < infos.len() ==> (#[trigger] states[j]).receives(
            states[j + 1],
            FecScheme::Xor,
            batch_id,
            session,
            infos[j],
            false,
            blocks[infos[j].batch_pos as int],
            now,
            told[j],
        )
}

/// The places of packets.
pub open spec fn places(infos: Seq<FECInfo>) -> Seq<u8> {
    Seq::new(infos.len(), |j: int| infos[j].batch_pos)
}

proof fn lemma_came(
    states: Seq<Fec>,
    told: Seq<bool>,
    batch_id: BatchID,
    session: SessionId,
    infos: Seq<FECInfo>,
    blocks: Seq<Seq<u8>>,
    size: u8,
    now: Timestamp,
    j: int,
)
    requires
        came_in_turn(states, told, batch_id, session, infos, blocks, now),
        states[0].xor.inbound_at(positions::batch_key(batch_id, session)) is None,
        forall|k: int| 0 <= k < infos.len() ==> (#[trigger] infos[k]).batch_size == size,
        0 < j <= infos.len(),
    ensures
        states[j].xor.inbound_at(positions::batch_key(batch_id, session)) == Some(
            xor_laws::inbound_after(size, now, blocks, places(infos).take(j)),
        ),
    decreases j,
{
    let all = places(infos);
    assert(all.take(j).drop_last() =~= all.take(j - 1));
    assert(all.take(j).last() == infos[j - 1].batch_pos);
    assert(states[j - 1].receives(
        states[j - 1 + 1],
        FecScheme::Xor,
        batch_id,
        session,
        infos[j - 1],
        false,
        blocks[infos[j - 1].batch_pos as int],
        now,
        told[j - 1],
    ));
    assert(infos[j - 1].batch_size == size);
    if j > 1 {
        lemma_came(states, told, batch_id, session, infos, blocks, size, now, j - 1);
    } else {
        assert(all.take(0) =~= seq![]);
    }
}

proof fn lemma_parity_len(blocks: Seq<Seq<u8>>)
    ensures
        xor_laws::parity_of(blocks).len() == FEC_DATA_SIZE,
    decreases blocks.len(),
{
    if blocks.len() > 0 {
        lemma_parity_len(blocks.drop_last());
    }
}

/// A batch of which every packet but one came, in any order, gives that one back as it was
/// sent, from where it stood and with its bytes, once the parity comes.
pub proof fn a_lost_packet_comes_back(
    states: Seq<Fec>,
    told: Seq<bool>,
    with_parity: Fec,
    done: Fec,
    recoverable: bool,
    r: Option<Vec<RecoverdPacket>>,
    batch_id: BatchID,
    session: SessionId,
    infos: Seq<FECInfo>,
    parity_info: FECInfo,
    starts: Seq<u32>,
    payloads: Seq<Seq<u8>>,
    lost: u8,
    now: Timestamp,
)
    requires
        0 < starts.len() <= 255,
        payloads.len() == starts.len(),
        forall|i: int|
            0 <= i < payloads.len() ==> (#[trigger] payloads[i]).len() <= MAX_PAYLOAD_LENGTH,
        ({
            let blocks = Seq::new(
                starts.len(),
                |i: int| data::fec_image(starts[i], payloads[i]),
            );
            &&& came_in_turn(states, told, batch_id, session, infos, blocks, now)
            &&& states.last().receives(
                with_parity,
                FecScheme::Xor,
                batch_id,
                session,
                parity_info,
                true,
                data::parity_image(xor_laws::parity_of(blocks)),
                now,
                recoverable,
            )
        }),
        states[0].xor.inbound_at(positions::batch_key(batch_id, session)) is None,
        forall|k: int| 0 <= k < infos.len() ==> (#[trigger] infos[k]).batch_size == starts.len(),
        parity_info.batch_size == starts.len(),
        lost < starts.len(),
        forall|p: u8| #[trigger] places(infos).contains(p) <==> p < starts.len() && p != lost,
        with_parity.recovers(done, FecScheme::Xor, batch_id, session, r),
    ensures
        recoverable,
        r matches Some(packets) && packets@.len() == 1 && packets@[0].byte_range_start.0
            == starts[lost as int] && packets@[0].payload@ == payloads[lost as int],
        done.xor.inbound_at(positions::batch_key(batch_id, session)) is None,
{
    let blocks = Seq::new(starts.len(), |i: int| data::fec_image(starts[i], payloads[i]));
    let size = starts.len() as u8;
    let key = positions::batch_key(batch_id, session);
    let arrived = places(infos);
    assert forall|i: int| 0 <= i < blocks.len() implies (#[trigger] blocks[i]).len()
        == FEC_DATA_SIZE by {
        data::block_holds_packet(starts[i], payloads[i]);
    }
    lemma_parity_len(blocks);
    assert(data::parity_image(xor_laws::parity_of(blocks)) =~= xor_laws::parity_of(blocks));
    xor_laws::parity_recovers_lost_packet(size, now, blocks, arrived, lost);
    let n = infos.len() as int;
    assert(arrived.take(n) =~= arrived);
    if n > 0 {
        lemma_came(states, told, batch_id, session, infos, blocks, size, now, n);
    } else {
        assert(arrived =~= seq![]);
        assert(xor_laws::inbound_after(size, now, blocks, arrived) == xor::InboundView::empty(
            size,
            now,
        ));
    }
    data::block_holds_packet(starts[lost as int], payloads[lost as int]);
}

/// Recovery with more than one parity packet gives every lost packet back as it was sent, once
/// as many packets have come as the batch has.
pub proof fn all_lost_packets_come_back(
    fec: Fec,
    next: Fec,
    batch_id: BatchID,
    session: SessionId,
    r: Option<Vec<RecoverdPacket>>,
    starts: Seq<u32>,
    payloads: Seq<Seq<u8>>,
    lost: int,
)
    requires
        fec.recovers(next, FecScheme::ReedSolomon, batch_id, session, r),
        payloads.len() == starts.len(),
        forall|i: int|
            0 <= i < payloads.len() ==> (#[trigger] payloads[i]).len() <= MAX_PAYLOAD_LENGTH,
        ({
            let blocks = Seq::new(
                starts.len(),
                |i: int| data::fec_image(starts[i], payloads[i]),
            );
            let batch = fec.rs.inbound_at(positions::batch_key(batch_id, session));
            &&& batch is Some
            &&& batch->0.batch_size == starts.len()
            &&& batch->0.is_part_of(blocks)
            &&& batch->0.originals.dom().len() + batch->0.recoveries.dom().len()
                >= batch->0.batch_size
            &&& 0 <= lost < starts.len()
            &&& !batch->0.originals.dom().contains(lost)
        }),
    ensures
        r matches Some(packets) && exists|i: int|
            0 <= i < packets@.len() && (#[trigger] packets@[i]).byte_range_start.0 == starts[lost]
                && packets@[i].payload@ == payloads[lost],
        next.rs.inbound_at(positions::batch_key(batch_id, session)) is None,
{
    let blocks = Seq::new(starts.len(), |i: int| data::fec_image(starts[i], payloads[i]));
    let batch = fec.rs.inbound_at(positions::batch_key(batch_id, session))->0;
    assert(r is Some);
    let packets = r->0;
    let restored = batch.restored();
    let i = choose|i: int|
        0 <= i < restored.len() && (#[trigger] restored[i]).0 == lost;
    assert(batch.is_part_of(blocks));
    assert(reed_solomon::is_restored(packets@[i], blocks[restored[i].0]));
    data::block_holds_packet(starts[lost], payloads[lost]);
    assert(packets@[i].byte_range_start.0 == starts[lost]);
}

proof fn lemma_rs_sent(
    states: Seq<Fec>,
    out: Seq<Option<Vec<ParityPacket>>>,
    batch_id: BatchID,
    session: SessionId,
    info: FECInfo,
    blocks: Seq<Seq<u8>>,
    now: Timestamp,
    i: int,
)
    requires
        sent_in_turn(states, out, FecScheme::ReedSolomon, batch_id, session, info, blocks, now),
        blocks.len() <= info.batch_size,
        states[0].rs.outbound_at(positions::batch_key(batch_id, session)) is None,
        0 <= i < blocks.len(),
    ensures
        ({
            let key = positions::batch_key(batch_id, session);
            &&& i > 0 ==> states[i].rs.outbound_at(key) == Some(
                reed_solomon::OutboundView {
                    shards: blocks.take(i),
                    batch_size: info.batch_size,
                    recovery_count: info.recovery_count,
                },
            )
            &&& out[i] is Some <==> i + 1 == info.batch_size
        }),
    decreases i,
{
    let key = positions::batch_key(batch_id, session);
    assert(blocks.take(i).push(blocks[i]) =~= blocks.take(i + 1));
    if i > 0 {
        lemma_rs_sent(states, out, batch_id, session, info, blocks, now, i - 1);
        assert(blocks.take(i - 1).push(blocks[i - 1]) =~= blocks.take(i));
        assert(states[i - 1].sends(
            states[i - 1 + 1],
            FecScheme::ReedSolomon,
            batch_id,
            session,
            info,
            blocks[i - 1],
            now,
            out[i - 1],
        ));
        if i - 1 == 0 {
            assert(blocks.take(0) =~= seq![]);
        }
    } else {
        assert(blocks.take(0) =~= seq![]);
    }
    assert(states[i].sends(
        states[i + 1],
        FecScheme::ReedSolomon,
        batch_id,
        session,
        info,
        blocks[i],
        now,
        out[i],
    ));
}

/// The last packet of a batch, and no other, is followed by as many recovery packets as were
/// agreed on, numbered, made of all of the batch's blocks.
pub proof fn a_full_batch_is_followed_by_its_recovery_packets(
    states: Seq<Fec>,
    out: Seq<Option<Vec<ParityPacket>>>,
    batch_id: BatchID,
    session: SessionId,
    info: FECInfo,
    blocks: Seq<Seq<u8>>,
    now: Timestamp,
    i: int,
)
    requires
        sent_in_turn(states, out, FecScheme::ReedSolomon, batch_id, session, info, blocks, now),
        blocks.len() <= info.batch_size,
        states[0].rs.outbound_at(positions::batch_key(batch_id, session)) is None,
        0 <= i < blocks.len(),
    ensures
        out[i] is Some <==> i + 1 == info.batch_size,
        out[i] matches Some(parity) ==> parity@.len() == info.recovery_count && forall|k: int|
            0 <= k < parity@.len() ==> (#[trigger] parity@[k]).payload@ == codec::rs_recovery(
                info.batch_size as int,
                info.recovery_count as int,
                blocks,
            )[k] && parity@[k].fec_info.batch_pos == k && parity@[k].batch_id == batch_id
                && parity@[k].session_id == session,
{
    lemma_rs_sent(states, out, batch_id, session, info, blocks, now, i);
    assert(states[i].sends(
        states[i + 1],
        FecScheme::ReedSolomon,
        batch_id,
        session,
        info,
        blocks[i],
        now,
        out[i],
    ));
    if out[i] is Some {
        assert(blocks.take(i).push(blocks[i]) =~= blocks);
        if i == 0 {
            assert(blocks.take(0) =~= seq![]);
        }
    }
}

/// A batch can be recovered, with more than one parity packet, just if something is missing and
/// no more than there are recovery packets.
pub proof fn losses_up_to_the_recovery_packets_can_be_made_up(batch: reed_solomon::InboundView)
    requires
        batch.originals.dom().finite(),
        batch.recoveries.dom().finite(),
    ensures
        batch.recoverable() <==> 0 < batch.batch_size - batch.originals.dom().len()
            <= batch.recoveries.dom().len(),
{
}

/// What is known of a batch after packets came at places, the first place standing at `base`.
pub open spec fn noted_all(base: u32, came: Seq<u8>) -> PositionsView
    decreases came.len(),
{
    if came.len() == 0 {
        PositionsView::empty()
    } else {
        noted_all(base, came.drop_last()).noted(
            came.last(),
            BytePosition((base + came.last() * 1384) as u32),
        )
    }
}

proof fn lemma_noted_all(base: u32, came: Seq<u8>)
    requires
        forall|j: int| 0 <= j < came.len() ==> base + (#[trigger] came[j]) * 1384 <= u32::MAX,
    ensures
        ({
            let v = noted_all(base, came);
            &&& v.mask.len() == PLACES
            &&& v.contiguous
            &&& came.len() > 0 ==> v.base == Some(BytePosition(base))
            &&& came.len() == 0 ==> v.base is None
            &&& forall|p: u8| #[trigger] v.mask[p as int] <==> came.contains(p)
        }),
    decreases came.len(),
{
    if came.len() > 0 {
        let rest = came.drop_last();
        assert forall|j: int| 0 <= j < rest.len() implies base + (#[trigger] rest[j]) * 1384
            <= u32::MAX by {
            assert(rest[j] == came[j]);
        }
        assert(came[came.len() - 1] == came.last());
        lemma_noted_all(base, rest);
        let before = noted_all(base, rest);
        let v = noted_all(base, came);
        assert forall|p: u8| #[trigger] v.mask[p as int] <==> came.contains(p) by {
            assert(before.mask[p as int] <==> rest.contains(p));
            if came.contains(p) {
                let j = choose|j: int| 0 <= j < came.len() && came[j] == p;
                if j < rest.len() {
                    assert(rest[j] == p);
                }
            }
            if rest.contains(p) {
                let j = choose|j: int| 0 <= j < rest.len() && rest[j] == p;
                assert(came[j] == p);
            }
        }
    }
}

/// A batch that is given up knows which bytes it lacks: those of the places whose packets have
/// not come.
pub proof fn a_batch_knows_what_it_lacks(base: u32, came: Seq<u8>, size: u8, place: u8)
    requires
        came.len() > 0,
        place < size,
        base + 255 * 1384 <= u32::MAX,
    ensures
        noted_all(base, came).missing(size).contains(
            BytePosition((base + place * 1384) as u32),
        ) <==> !came.contains(place),
{
    assert forall|j: int| 0 <= j < came.len() implies base + (#[trigger] came[j]) * 1384
        <= u32::MAX by {}
    lemma_noted_all(base, came);
    let v = noted_all(base, came);
    positions::missing_are_the_other_places(v.mask, base as int, size as int, place as int);
    assert(v.mask[place as int] <==> came.contains(place));
}

/// A batch that is older than it may be is given up, and listed once with what it lacks; any
/// other stays as it is.
pub proof fn old_batches_are_given_up(
    fec: Fec,
    next: Fec,
    ttl: u64,
    now: Timestamp,
    out: Seq<Pruned>,
    key: u128,
)
    requires
        fec.prunes(next, ttl, now, out),
    ensures
        fec.xor.inbound_at(key) matches Some(batch) ==> {
            &&& now.0 - batch.created_at.0 <= ttl ==> next.xor.inbound_at(key) == Some(batch)
            &&& now.0 - batch.created_at.0 > ttl ==> next.xor.inbound_at(key) is None && lists(
                out,
                key,
                batch.positions.missing(batch.batch_size),
            )
        },
        fec.rs.inbound_at(key) matches Some(batch) ==> {
            &&& now.0 - batch.created_at.0 <= ttl ==> next.rs.inbound_at(key) == Some(batch)
            &&& now.0 - batch.created_at.0 > ttl ==> next.rs.inbound_at(key) is None && lists(
                out,
                key,
                batch.positions.missing(batch.batch_size),
            )
        },
        next.xor.outbound_at(key) == fec.xor.outbound_at(key),
        next.rs.outbound_at(key) == fec.rs.outbound_at(key),
{
    let n = choose|n: int|
        0 <= n <= out.len() && #[trigger] fec.xor.prunes(next.xor, ttl, now, out.take(n))
            && fec.rs.prunes(next.rs, ttl, now, out.skip(n));
    match fec.xor.inbound_at(key) {
        Some(batch) => {
            if now.0 - batch.created_at.0 > ttl {
                assert(xor::expired(fec.xor.inbound_at(key), ttl, now));
                let i = choose|i: int|
                    0 <= i < out.take(n).len()
                        && crate::packet_processor::fec::pruning::pruned_key(
                        #[trigger] out.take(n)[i],
                    ) == key;
                assert(out[i] == out.take(n)[i]);
            }
        },
        None => {},
    }
    match fec.rs.inbound_at(key) {
        Some(batch) => {
            if now.0 - batch.created_at.0 > ttl {
                assert(reed_solomon::expired(fec.rs.inbound_at(key), ttl, now));
                let i = choose|i: int|
                    0 <= i < out.skip(n).len()
                        && crate::packet_processor::fec::pruning::pruned_key(
                        #[trigger] out.skip(n)[i],
                    ) == key;
                assert(out[n + i] == out.skip(n)[i]);
            }
        },
        None => {},
    }
}

/// Whether a batch is listed with the bytes that it lacks.
pub open spec fn lists(out: Seq<Pruned>, key: u128, lacking: Seq<BytePosition>) -> bool {
    exists|i: int|
        0 <= i < out.len() && (#[trigger] out[i]).0.0 * 0x1_0000 + out[i].1.0 == key
            && out[i].2@ == lacking
}

/// A batch that is full is over: its number can be used again from the start. Other batches are
/// not touched by one that is sent.
pub proof fn a_full_batch_is_over(
    fec: Fec,
    next: Fec,
    scheme: FecScheme,
    batch_id: BatchID,
    session: SessionId,
    info: FECInfo,
    block: Seq<u8>,
    now: Timestamp,
    out: Option<Vec<ParityPacket>>,
    other: u128,
)
    requires
        fec.sends(next, scheme, batch_id, session, info, block, now, out),
    ensures
        ({
            let key = positions::batch_key(batch_id, session);
            &&& scheme == FecScheme::Xor ==> (out is Some <==> next.xor.outbound_at(key) is None)
            &&& scheme == FecScheme::ReedSolomon ==> (out is Some <==> next.rs.outbound_at(
                key,
            ) is None)
            &&& other != key ==> next.xor.outbound_at(other) == fec.xor.outbound_at(other)
                && next.rs.outbound_at(other) == fec.rs.outbound_at(other)
            &&& next.xor.inbound_at(other) == fec.xor.inbound_at(other)
            &&& next.rs.inbound_at(other) == fec.rs.inbound_at(other)
        }),
{
}

/// A packet that came before changes nothing of what a batch can be recovered from, and does
/// not make it recoverable a second time.
pub proof fn copies_recover_nothing(
    fec: Fec,
    next: Fec,
    batch_id: BatchID,
    session: SessionId,
    info: FECInfo,
    block: Seq<u8>,
    now: Timestamp,
    recoverable: bool,
)
    requires
        fec.receives(
            next,
            FecScheme::ReedSolomon,
            batch_id,
            session,
            info,
            false,
            block,
            now,
            recoverable,
        ),
        fec.rs.inbound_at(positions::batch_key(batch_id, session)) matches Some(batch)
            && batch.originals.dom().contains(info.batch_pos as int) && info.batch_pos
            < batch.batch_size,
    ensures
        !recoverable,
        ({
            let key = positions::batch_key(batch_id, session);
            let before = fec.rs.inbound_at(key)->0;
            &&& next.rs.inbound_at(key) matches Some(after)
            &&& after.originals == before.originals
            &&& after.recoveries == before.recoveries
            &&& after.batch_size == before.batch_size
            &&& after.created_at == before.created_at
        }),
{
}

/// A packet that comes, of data or for recovery, is kept at its place in its batch, whose age
/// counts from the first one; other batches are not touched.
pub proof fn what_comes_of_a_batch_is_kept(
    fec: Fec,
    next: Fec,
    batch_id: BatchID,
    session: SessionId,
    info: FECInfo,
    is_parity: bool,
    block: Seq<u8>,
    now: Timestamp,
    recoverable: bool,
    other: u128,
)
    requires
        fec.receives(
            next,
            FecScheme::ReedSolomon,
            batch_id,
            session,
            info,
            is_parity,
            block,
            now,
            recoverable,
        ),
        fec.rs.inbound_at(positions::batch_key(batch_id, session)) is None,
        if is_parity {
            info.batch_pos < info.recovery_count
        } else {
            info.batch_pos < info.batch_size
        },
    ensures
        ({
            let key = positions::batch_key(batch_id, session);
            let place = info.batch_pos as int;
            &&& next.rs.inbound_at(key) matches Some(batch)
            &&& batch.created_at == now
            &&& batch.batch_size == info.batch_size
            &&& batch.recovery_count == info.recovery_count
            &&& is_parity ==> batch.recoveries.dom().contains(place) && batch.recoveries[place]
                == block && !batch.originals.dom().contains(place)
            &&& !is_parity ==> batch.originals.dom().contains(place) && batch.originals[place]
                == block && !batch.recoveries.dom().contains(place)
            &&& other != key ==> next.rs.inbound_at(other) == fec.rs.inbound_at(other)
            &&& next.xor.inbound_at(other) == fec.xor.inbound_at(other)
        }),
{
}

/// Of a batch whose packets do not follow each other it is not known what it lacks.
pub proof fn scattered_batches_do_not_guess(
    before: PositionsView,
    place: u8,
    start: BytePosition,
    size: u8,
)
    requires
        before.base matches Some(base) && base.0 + place * 1384 != start.0 && start.0 >= place
            * 1384,
    ensures
        before.noted(place, start).missing(size).len() == 0,
{
}

} // verus!
