//! What goes out when a packet is sent: the packet itself, protected with the key of its
//! session and a number that was not used before, and what makes up for a loss.
use vstd::prelude::*;

use crate::manager::fields::{PacketType, SessionId};
use crate::manager::identity::Address;
use crate::manager::images::{DataPacket, ParityPacket};
use crate::manager::packets;
use crate::manager::packets::Packet;
use crate::manager::state::{KeyView, StateView};
use crate::manager::types::Timestamp;
use crate::manager::views::PacketView;
use crate::packet_processor::encryption;
use crate::packet_processor::encryption::MAX_PROTECTED;
use crate::packet_processor::fingerprint;
use crate::packet_processor::fingerprint::Headers;
use crate::packet_processor::outbound;
use crate::packet_processor::outbound::OutStep;
use crate::packet_processor::reading;
use crate::packet_processor::types::ProcessedView;
use crate::utils::data_collection::Observation;
use crate::utils::messages::ActionView;
use crate::wire;

verus! {

/// Whether what goes out is a packet of a kind, for an address, sealed with a key under a
/// number.
pub open spec fn is_sealed(
    sent: ProcessedView,
    kind: PacketType,
    address: Address,
    session: SessionId,
    key: Seq<u8>,
    counter: int,
    head: Seq<u8>,
    body: Seq<u8>,
) -> bool {
    &&& sent.packet_type == kind
    &&& sent.dest_addr == address
    &&& sent.duplicate_count == 1
    &&& 0 <= counter <= u64::MAX
    &&& sent.data == head + encryption::protected(
        key,
        session,
        wire::be64(counter as u64),
        head,
        body,
    )
}

/// Whether the keys are those before but for the number of one session, which is `n` further.
pub open spec fn numbers_used(
    before: Map<u64, KeyView>,
    after: Map<u64, KeyView>,
    session: SessionId,
    n: int,
) -> bool {
    &&& after.dom() =~= before.dom()
    &&& after[session.0].key == before[session.0].key
    &&& after[session.0].counter == before[session.0].counter + n
    &&& forall|id: u64|
        id != session.0 && #[trigger] before.dom().contains(id) ==> after[id] == before[id]
}

/// Whether recovery packets are of one session and small enough to be sealed.
pub open spec fn are_of_session(parity: Seq<ParityPacket>, session: SessionId) -> bool {
    forall|i: int|
        0 <= i < parity.len() ==> (#[trigger] parity[i]).session_id == session
            && parity[i].head_image().len() <= MAX_PROTECTED && parity[i].payload@.len()
            <= MAX_PROTECTED
}

proof fn lemma_parity(step: OutStep, parity: Seq<ParityPacket>, addr: Address, session: SessionId)
    requires
        step.keys.dom().contains(session.0),
        step.keys[session.0].counter + parity.len() <= u64::MAX,
        are_of_session(parity, session),
    ensures
        ({
            let after = step.with_parity(parity, addr);
            let n = step.out.len() as int;
            &&& after.out.len() == n + parity.len()
            &&& after.out.take(n) == step.out
            &&& numbers_used(step.keys, after.keys, session, parity.len() as int)
            &&& forall|i: int|
                0 <= i < parity.len() ==> is_sealed(
                    #[trigger] after.out[n + i],
                    PacketType::Parity,
                    addr,
                    session,
                    step.keys[session.0].key,
                    step.keys[session.0].counter + i,
                    parity[i].head_image(),
                    parity[i].payload@,
                )
            &&& after.actions.len() >= step.actions.len() + parity.len()
            &&& after.actions.take(step.actions.len() as int) == step.actions
            &&& parity.len() > 0 ==> after.actions.last() == ActionView::Observe(
                Observation::ParityPacketSent { session },
            )
        }),
    decreases parity.len(),
{
    if parity.len() > 0 {
        let rest = parity.drop_last();
        let p = parity.last();
        assert forall|i: int| 0 <= i < rest.len() implies (#[trigger] rest[i]).session_id == session
            && rest[i].head_image().len() <= MAX_PROTECTED && rest[i].payload@.len()
            <= MAX_PROTECTED by {
            assert(rest[i] == parity[i]);
        }
        assert(parity[parity.len() - 1] == p);
        lemma_parity(step, rest, addr, session);
        let before = step.with_parity(rest, addr);
        let after = step.with_parity(parity, addr);
        let n = step.out.len() as int;
        assert(after.out.take(n) =~= before.out.take(n));
        assert(after.actions.take(step.actions.len() as int) =~= before.actions.take(
            step.actions.len() as int,
        ));
        assert forall|i: int| 0 <= i < parity.len() implies is_sealed(
            #[trigger] after.out[n + i],
            PacketType::Parity,
            addr,
            session,
            step.keys[session.0].key,
            step.keys[session.0].counter + i,
            parity[i].head_image(),
            parity[i].payload@,
        ) by {
            if i < rest.len() {
                assert(after.out[n + i] == before.out[n + i]);
                assert(rest[i] == parity[i]);
            }
        }
    } else {
        assert(step.out.take(step.out.len() as int) =~= step.out);
        assert(step.actions.take(step.actions.len() as int) =~= step.actions);
    }
}

proof fn lemma_data(
    before: OutStep,
    session: SessionId,
    head: Seq<u8>,
    body: Seq<u8>,
    more: Seq<ParityPacket>,
    addr: Address,
)
    requires
        before.keys.dom().contains(session.0),
        head.len() <= MAX_PROTECTED,
        body.len() <= MAX_PROTECTED,
        are_of_session(more, session),
        before.keys[session.0].counter + 1 + more.len() <= u64::MAX,
    ensures
        ({
            let key = before.keys[session.0];
            let n = before.out.len() as int;
            let after = before.with(
                session,
                head,
                body,
                addr,
                PacketType::Data,
                Observation::DataPacketSent { session },
            ).with_parity(more, addr);
            &&& after.out.len() == n + 1 + more.len()
            &&& after.out.take(n) == before.out
            &&& is_sealed(
                after.out[n],
                PacketType::Data,
                addr,
                session,
                key.key,
                key.counter as int,
                head,
                body,
            )
            &&& forall|i: int|
                0 <= i < more.len() ==> is_sealed(
                    #[trigger] after.out[n + 1 + i],
                    PacketType::Parity,
                    addr,
                    session,
                    key.key,
                    key.counter + 1 + i,
                    more[i].head_image(),
                    more[i].payload@,
                )
            &&& numbers_used(before.keys, after.keys, session, 1 + more.len() as int)
            &&& body.len() > 0 ==> after.actions.contains(
                ActionView::Observe(Observation::BytesSent { session, bytes: body.len() as u64 }),
            )
            &&& after.actions.contains(ActionView::Observe(Observation::DataPacketSent { session }))
            &&& more.len() > 0 ==> after.actions.last() == ActionView::Observe(
                Observation::ParityPacketSent { session },
            )
        }),
{
    let n = before.out.len() as int;
    let step = before.with(
        session,
        head,
        body,
        addr,
        PacketType::Data,
        Observation::DataPacketSent { session },
    );
    let after = step.with_parity(more, addr);
    lemma_parity(step, more, addr, session);
    assert(step.out.len() == n + 1);
    assert(after.out[n] == after.out.take(n + 1)[n]);
    assert(after.out.take(n) =~= before.out) by {
        assert forall|i: int| 0 <= i < n implies after.out[i] == before.out[i] by {
            assert(after.out[i] == after.out.take(n + 1)[i]);
        }
    }
    assert forall|i: int| 0 <= i < more.len() implies is_sealed(
        #[trigger] after.out[n + 1 + i],
        PacketType::Parity,
        addr,
        session,
        before.keys[session.0].key,
        before.keys[session.0].counter + 1 + i,
        more[i].head_image(),
        more[i].payload@,
    ) by {
        assert(after.out[step.out.len() as int + i] == after.out[n + 1 + i]);
    }
    let told = step.actions.len() as int;
    assert(step.actions[told - 1] == ActionView::Observe(Observation::DataPacketSent { session }));
    assert(after.actions[told - 1] == after.actions.take(told)[told - 1]);
    if body.len() > 0 {
        assert(step.actions[told - 2] == ActionView::Observe(
            Observation::BytesSent { session, bytes: body.len() as u64 },
        ));
        assert(after.actions[told - 2] == after.actions.take(told)[told - 2]);
    }
    assert(step.keys.dom() =~= before.keys.dom());
    assert forall|id: u64|
        id != session.0 && #[trigger] before.keys.dom().contains(id) implies after.keys[id]
        == before.keys[id] by {
        assert(step.keys.dom().contains(id));
    }
}

/// A data packet goes out once, sealed, to where it is meant for, and after it the recovery
/// packets that it completes, each under a number of its own that was not used before. What
/// was sent is noted: the bytes, the packet, and the recovery packets.
pub proof fn every_data_packet_goes_out(
    state: StateView,
    next: StateView,
    packet: DataPacket,
    addr: Address,
    now: Timestamp,
    parity: Option<Vec<ParityPacket>>,
    before: OutStep,
    after: OutStep,
)
    requires
        state.sends_data(next, packet, addr, now, parity, before, after),
        before.keys == state.encryption,
        state.encryption.dom().contains(packet.session_id.0),
        packet.head_image().len() <= MAX_PROTECTED,
        packet.payload@.len() <= MAX_PROTECTED,
        parity matches Some(more) ==> are_of_session(more@, packet.session_id),
        state.encryption[packet.session_id.0].counter + 1 + (match parity {
            Some(more) => more@.len() as int,
            None => 0,
        }) <= u64::MAX,
    ensures
        ({
            let session = packet.session_id;
            let key = state.encryption[session.0];
            let n = before.out.len() as int;
            let more = match parity {
                Some(more) => more@,
                None => seq![],
            };
            &&& after.out.len() == n + 1 + more.len()
            &&& after.out.take(n) == before.out
            &&& is_sealed(
                after.out[n],
                PacketType::Data,
                addr,
                session,
                key.key,
                key.counter as int,
                packet.head_image(),
                packet.payload@,
            )
            &&& forall|i: int|
                0 <= i < more.len() ==> is_sealed(
                    #[trigger] after.out[n + 1 + i],
                    PacketType::Parity,
                    addr,
                    session,
                    key.key,
                    key.counter + 1 + i,
                    more[i].head_image(),
                    more[i].payload@,
                )
            &&& numbers_used(state.encryption, next.encryption, session, 1 + more.len() as int)
            &&& packet.payload@.len() > 0 ==> after.actions.contains(
                ActionView::Observe(
                    Observation::BytesSent { session, bytes: packet.payload@.len() as u64 },
                ),
            )
            &&& after.actions.contains(ActionView::Observe(Observation::DataPacketSent { session }))
            &&& more.len() > 0 ==> after.actions.last() == ActionView::Observe(
                Observation::ParityPacketSent { session },
            )
            &&& next.connections == state.connections
            &&& next.ack == state.ack
        }),
{
    let more = match parity {
        Some(more) => more@,
        None => seq![],
    };
    lemma_data(
        before,
        packet.session_id,
        packet.head_image(),
        packet.payload@,
        more,
        addr,
    );
}

/// A data packet of a session without a key does not go out, and nothing is noted of it.
pub proof fn nothing_goes_out_without_a_key(
    state: StateView,
    packet: DataPacket,
    addr: Address,
    before: OutStep,
)
    requires
        before.keys == state.encryption,
        !state.encryption.dom().contains(packet.session_id.0),
    ensures
        before.with(
            packet.session_id,
            packet.head_image(),
            packet.payload@,
            addr,
            PacketType::Data,
            Observation::DataPacketSent { session: packet.session_id },
        ) == before,
{
}

/// Whether a packet is of those that open a session or that anyone can send.
pub open spec fn needs_no_key(packet: PacketView) -> bool {
    packet is Hello || packet is HandshakeRejection || packet is HandshakeAck
        || packet is IncompatibleVersion
}

/// Every other packet goes out as one, to where it is meant for, if its session has a key or
/// it needs none, and takes the next number of its key; three times, as nothing makes up for its
/// loss, and what opens the way for everything else seven times. Without a key nothing goes
/// out.
pub proof fn every_other_packet_goes_out(
    state: StateView,
    next: StateView,
    packet: Packet,
    addr: Address,
    now: Timestamp,
    before: OutStep,
    after: OutStep,
)
    requires
        outbound::goes_out(state, next, packet, addr, now, before, after),
        !(packet is DataPacket),
        !(packet is ParityPacket),
        !(packet is MetadataPacket),
        packet.head().len() <= MAX_PROTECTED,
        packet.body().len() <= MAX_PROTECTED,
        packet.image().len() <= MAX_PROTECTED,
    ensures
        ({
            let n = before.out.len() as int;
            let view = packet@;
            let keyed = view.session() matches Some(session)
                && state.encryption.dom().contains(session.0);
            let goes = needs_no_key(view) || keyed;
            &&& after.actions == before.actions
            &&& after.out.len() == n + (if goes {
                1int
            } else {
                0
            })
            &&& after.out.take(n) == before.out
            &&& goes ==> after.out[n].dest_addr == addr && after.out[n].duplicate_count == (
            if view is Hello || view is IncompatibleVersion {
                7int
            } else {
                3
            })
            &&& goes && (view is Hello || view is HandshakeRejection || view
                is IncompatibleVersion) ==> after.out[n].packet_type == PacketType::Host
            &&& goes && view is KeepAlive ==> after.out[n].packet_type == PacketType::KeepAlive
            &&& goes && needs_no_key(view) ==> after.out[n].data == packet.image()
                && next.encryption == state.encryption
            &&& goes && !needs_no_key(view) ==> {
                let session = view.session()->0;
                &&& state.encryption[session.0].counter < u64::MAX ==> numbers_used(
                    state.encryption,
                    next.encryption,
                    session,
                    1,
                )
            }
            &&& !goes ==> next.encryption == state.encryption
            &&& next.connections == state.connections
            &&& next.handshakes == state.handshakes
            &&& next.ack == state.ack
            &&& next.fec == state.fec
        }),
{
    let n = before.out.len() as int;
    assert(after.out.take(n) =~= before.out);
}

/// A packet that wants an acknowledgement is waited for under its fingerprint; another one is
/// not.
pub proof fn packets_that_want_it_are_waited_for(state: StateView, packet: Packet, now: Timestamp)
    requires
        !state.ack.canceled,
    ensures
        ({
            let after = state.registered(packet, now);
            let print = fingerprint::xxh3_128_of(packet.fingerprinted()->Some_0);
            let waits = packets::wants_ack(packet.options()) && (packet is DataPacket
                || packet is TrackRequestPacket || packet is AppRejectErrorPacket
                || packet is TrackRejectionPacket || packet is RetransmitPacket
                || packet is PlaybackStatusPacket);
            &&& waits ==> after.ack.pending.dom().contains(print) && after.ack.pending[print]
                == packet@ && after.ack.queue.len() == state.ack.queue.len() + 1
                && after.ack.queue.last().timestamp == now
                && after.ack.queue.last().fingerprint.0 == print && after.ack.queue.last().retries
                == 0
            &&& !waits ==> after == state
            &&& after.connections == state.connections
            &&& after.encryption == state.encryption
        }),
{
}

/// What comes in of a stream is noted, its bytes and its kind, and nothing else is.
pub proof fn arrivals_are_noted(packet: Packet)
    ensures
        ({
            let noted = reading::arrival_observed(packet);
            &&& packet matches Packet::DataPacket(p) ==> noted == seq![
                ActionView::Observe(
                    Observation::BytesReceived {
                        session: p.session_id,
                        bytes: p.payload@.len() as u64,
                    },
                ),
                ActionView::Observe(Observation::DataPacketReceived { session: p.session_id }),
            ]
            &&& packet matches Packet::ParityPacket(p) ==> noted == seq![
                ActionView::Observe(
                    Observation::BytesReceived {
                        session: p.session_id,
                        bytes: p.payload@.len() as u64,
                    },
                ),
                ActionView::Observe(Observation::ParityPacketReceived { session: p.session_id }),
            ]
            &&& !(packet is DataPacket) && !(packet is ParityPacket) ==> noted.len() == 0
        }),
{
}

/// The nonce of a packet has twelve bytes: the upper half of the number of its session, most
/// significant byte first, and the counter.
pub proof fn a_nonce_names_its_session(session: SessionId, counter: Seq<u8>)
    requires
        counter.len() == 8,
    ensures
        encryption::nonce_of(session, counter).len() == 12,
        wire::spelled(encryption::nonce_of(session, counter).take(4)) == session.0
            / 0x1_0000_0000,
        encryption::nonce_of(session, counter).skip(4) == counter,
{
    let upper = (session.0 / 0x1_0000_0000) as u32;
    wire::numbers_are_spelled_out(0, upper, session.0, 0);
    wire::numbers_are_spelled_out(0, (session.0 % 0x1_0000_0000) as u32, 0, 0);
    let nonce = encryption::nonce_of(session, counter);
    assert(nonce.take(4) =~= wire::be32(upper));
    assert(nonce.skip(4) =~= counter);
}

} // verus!
