//! How sessions begin and end, and what each packet of a peer does to them.
use vstd::prelude::*;

use crate::api::types::WriteableView;
use crate::error::{ConnectionErrorView, Error, FlatState};
use crate::manager::arrival_laws;
use crate::manager::connection;
use crate::manager::connection::{ConnView, SessionStateView};
use crate::manager::control_laws;
use crate::manager::fields::{BatchID, FecScheme, HandshakeId, HandshakeRejectionReason, SessionId};
use crate::manager::hello;
use crate::manager::identity::Address;
use crate::manager::inbound;
use crate::manager::key_exchange;
use crate::manager::packets;
use crate::manager::playback_laws;
use crate::manager::received;
use crate::manager::received_data;
use crate::manager::received_data::{DataIntake, ParityIntake};
use crate::manager::state;
use crate::manager::state::StateView;
use crate::manager::stream_state;
use crate::manager::stream_state::Outcome;
use crate::manager::types::Timestamp;
use crate::manager::views;
use crate::manager::views::PacketView;
use crate::packet_processor::fec;
use crate::packet_processor::fec::data::Recovered;
use crate::packet_processor::fec::Fec;
use crate::utils::data_collection::Observation;
use crate::utils::messages::{
    ActionView, ConnectionEventView, StreamEventView, StreamMessage,
};
use crate::DEFAULT_PORT;

verus! {

/// Whether the bytes that arrived on a session are handed to the application.
pub open spec fn hands_back(
    actions: Seq<ActionView>,
    connection: ConnView,
    session: SessionId,
) -> bool {
    connection.flat() == FlatState::StreamingFrom ==> actions.contains(
        ActionView::Received {
            session,
            data: connection.stream().streaming->From_0.buffer.data,
        },
    )
}

/// Whether a session is gone, with everything that belongs to it, and no other is touched.
pub open spec fn is_gone(before: StateView, after: StateView, session: SessionId) -> bool {
    &&& !after.has(session)
    &&& forall|id: u64|
        id != session.0 ==> (#[trigger] after.connections.dom().contains(id)
            <==> before.connections.dom().contains(id))
    &&& forall|id: u64|
        id != session.0 && #[trigger] before.connections.dom().contains(id)
            ==> after.connections[id] == before.connections[id]
    &&& after.handshakes == before.handshakes
    &&& after.ack == before.ack
    &&& after.fingerprints == before.fingerprints
    &&& after.app_id == before.app_id
    &&& after.port == before.port
    &&& after.fec == before.fec
}

/// When a peer ends a session, or says that it knows of none, the session is gone. What had
/// arrived of its stream is handed to the application, who learns that the session, or its
/// stream, is closed; one who still waits for the session learns that it will not come.
pub proof fn a_peer_can_end_a_session(
    state: StateView,
    next: StateView,
    packet: PacketView,
    session: SessionId,
    print: u128,
    addr: Address,
    now: Timestamp,
    before: Seq<ActionView>,
    after: Seq<ActionView>,
)
    requires
        inbound::handles(state, next, packet, print, addr, now, before, after),
        packet is CloseSession || packet is SessionDoesNotExistError,
        packet.session() == Some(session),
    ensures
        !state.has(session) ==> next == state && after == before,
        state.has(session) ==> {
            let told = after.skip(before.len() as int);
            let connection = state.conn(session);
            &&& is_gone(state, next, session)
            &&& after == before + told
            &&& hands_back(told, connection, session)
            &&& told.contains(ActionView::Observe(Observation::SessionClosed { session }))
            &&& connection.streams() ==> told.contains(
                ActionView::Publish {
                    session,
                    message: StreamMessage { closed: true, ..connection.stream().message },
                },
            )
            &&& connection is Established && !connection.streams() ==> told.contains(
                ActionView::Notify { session, news: ConnectionEventView::ConnectionClosed },
            )
            &&& connection matches ConnView::Handshake { session_id: _, ticket, app_id: _, address: _ }
                ==> told.contains(
                ActionView::Failed { ticket, error: ConnectionErrorView::SessionClosedByPeer },
            )
        },
{
    let told = after.skip(before.len() as int);
    let notice = state.closing_notice(session);
    let farewell = state.farewell(session);
    assert(after == before + (notice + farewell));
    assert(told =~= notice + farewell);
    if state.has(session) {
        assert(told.last() == farewell.last());
        assert(told[told.len() - 1] == ActionView::Observe(
            Observation::SessionClosed { session },
        ));
        if notice.len() > 0 {
            assert(told[0] == notice[0]);
        }
        if farewell.len() == 2 {
            assert(told[notice.len() as int] == farewell[0]);
        }
    } else {
        assert(after =~= before);
    }
}

/// Ending a session at the application's wish hands over what had arrived of its stream and
/// lets one who waits for the session know.
pub proof fn an_ended_session_hands_over(state: StateView, session: SessionId)
    ensures
        !state.has(session) ==> state.without(session) == state && state.farewell(session).len()
            == 0,
        state.has(session) ==> {
            let told = state.farewell(session);
            let connection = state.conn(session);
            &&& is_gone(state, state.without(session), session)
            &&& hands_back(told, connection, session)
            &&& told.contains(ActionView::Observe(Observation::SessionClosed { session }))
            &&& connection matches ConnView::Handshake { session_id: _, ticket, app_id: _, address: _ }
                ==> told.contains(
                ActionView::Failed { ticket, error: ConnectionErrorView::SessionClosedByPeer },
            )
        },
{
    if state.has(session) {
        let told = state.farewell(session);
        assert(told[told.len() - 1] == ActionView::Observe(
            Observation::SessionClosed { session },
        ));
        if told.len() == 2 {
            assert(told[0] is Received || told[0] is Failed);
        }
    }
}

/// Closing the stream of a session leaves the session free, at the same address. What had
/// arrived is handed to the application, or the one who sends is told to stop, and the
/// application learns that the stream is closed.
pub proof fn a_closed_stream_frees_its_session(state: StateView, session: SessionId)
    ensures
        !state.streams(session) ==> state.stream_closed(session) == state && state.stream_end(
            session,
        ).len() == 0,
        state.streams(session) ==> {
            let after = state.stream_closed(session);
            let told = state.stream_end(session);
            let connection = state.conn(session);
            &&& after.has(session)
            &&& after.conn(session) is Established
            &&& after.conn(session)->Established_0.state == SessionStateView::Up
            &&& after.conn(session).addr() == connection.addr()
            &&& after.conn(session).id() == connection.id()
            &&& playback_laws::same_elsewhere(state, after, session)
            &&& hands_back(told, connection, session)
            &&& state.sends(session) ==> told.contains(
                ActionView::Signal {
                    session,
                    event: StreamEventView::Playback(
                        crate::utils::messages::PlaybackControl::Close,
                    ),
                },
            )
            &&& told.contains(
                ActionView::Publish {
                    session,
                    message: StreamMessage { closed: true, ..connection.stream().message },
                },
            )
            &&& told.contains(ActionView::Observe(Observation::SessionClosed { session }))
        },
{
    if state.streams(session) {
        let told = state.stream_end(session);
        assert(told.len() == 3);
        assert(told[0] is Signal || told[0] is Received);
        assert(told[1] is Publish);
        assert(told[2] is Observe);
    }
}

proof fn lemma_all_closed(connections: Map<u64, ConnView>, ids: Seq<u64>, i: int, j: int)
    requires
        0 <= i < ids.len(),
        0 <= j < state::protocol_closed(ids[i], connections[ids[i]]).len(),
    ensures
        state::all_closed(connections, ids).contains(
            state::protocol_closed(ids[i], connections[ids[i]])[j],
        ),
    decreases ids.len(),
{
    let rest = state::all_closed(connections, ids.drop_last());
    let all = state::all_closed(connections, ids);
    let own = state::protocol_closed(ids.last(), connections[ids.last()]);
    if i == ids.len() - 1 {
        assert(all[rest.len() + j] == own[j]);
    } else {
        lemma_all_closed(connections, ids.drop_last(), i, j);
        let wanted = state::protocol_closed(ids[i], connections[ids[i]])[j];
        assert(ids.drop_last()[i] == ids[i]);
        let k = choose|k: int| 0 <= k < rest.len() && rest[k] == wanted;
        assert(all[k] == wanted);
    }
}

/// When the protocol ends, everyone is told: of every session, whoever waits for it learns
/// that it will not come, or the application learns that the protocol is closed and gets what
/// had arrived.
pub proof fn everyone_learns_of_the_end(
    connections: Map<u64, ConnView>,
    ids: Seq<u64>,
    id: u64,
)
    requires
        state::in_some_order(ids, connections),
        connections.dom().contains(id),
    ensures
        ({
            let told = state::all_closed(connections, ids);
            let session = SessionId(id);
            &&& hands_back(told, connections[id], session)
            &&& connections[id] is Established ==> told.contains(
                ActionView::Notify { session, news: ConnectionEventView::ProtocolClosed },
            )
            &&& connections[id] matches ConnView::Handshake {
                session_id,
                ticket,
                app_id: _,
                address: _,
            } ==> told.contains(
                ActionView::Failed { ticket, error: ConnectionErrorView::ProtocolClosed },
            ) && told.contains(ActionView::Handshaken { session: session_id, done: false })
        }),
{
    assert(ids.contains(id));
    let i = choose|i: int| 0 <= i < ids.len() && ids[i] == id;
    let own = state::protocol_closed(id, connections[id]);
    assert(own.len() >= 1);
    lemma_all_closed(connections, ids, i, 0);
    if own.len() == 2 {
        lemma_all_closed(connections, ids, i, 1);
    }
}

/// Whatever a peer sends on an established session is noted with its time, and changes nothing
/// else of the session.
pub proof fn hearing_of_a_peer_is_noted(state: StateView, session: SessionId, ts: Timestamp)
    ensures
        ({
            let after = state.heard(session, ts);
            &&& playback_laws::same_elsewhere(state, after, session)
            &&& !state.is_up(session) ==> after == state
            &&& state.is_up(session) ==> after.is_up(session) && after.conn(
                session,
            )->Established_0.last_activity == ts.0 && after.conn(session)->Established_0.state
                == state.conn(session)->Established_0.state && after.conn(session).addr()
                == state.conn(session).addr() && after.conn(session).id() == state.conn(
                session,
            ).id() && after.conn(session)->Established_0.app_id == state.conn(
                session,
            )->Established_0.app_id
        }),
{
}

/// Whether an action acknowledges a packet to the peer at `address`.
pub open spec fn acknowledges(
    action: ActionView,
    session: SessionId,
    address: Address,
    print: u128,
) -> bool {
    &&& action matches ActionView::Send { packet, addr }
    &&& addr == address
    &&& packet matches PacketView::Ack(ack)
    &&& ack.session_id == session
    &&& ack.fingerprint.0 == print
}

/// An acknowledgement names the packet that it is for, so that the peer who gets it waits for
/// that packet no more, and goes on waiting for every other.
pub proof fn an_acknowledgement_ends_the_wait(
    state: StateView,
    peer: StateView,
    session: SessionId,
    print: u128,
    now: Timestamp,
    other: u128,
)
    requires
        state.is_up(session),
        !peer.ack.canceled,
    ensures
        state.acks(session, print, now).len() == 1,
        acknowledges(
            state.acks(session, print, now)[0],
            session,
            state.conn(session).addr(),
            print,
        ),
        ({
            let waits = peer.ack.acknowledged(print).pending;
            &&& !waits.dom().contains(print)
            &&& other != print ==> (waits.dom().contains(other) <==> peer.ack.pending.dom().contains(
                other,
            )) && (waits.dom().contains(other) ==> waits[other] == peer.ack.pending[other])
        }),
{
}

/// An acknowledgement that comes in ends the wait for its packet.
pub proof fn acknowledgements_are_taken(
    state: StateView,
    next: StateView,
    packet: crate::manager::packets::AckPacket,
    print: u128,
    addr: Address,
    now: Timestamp,
    before: Seq<ActionView>,
    after: Seq<ActionView>,
)
    requires
        inbound::handles(state, next, PacketView::Ack(packet), print, addr, now, before, after),
        !state.ack.canceled,
    ensures
        after == before,
        !next.ack.pending.dom().contains(packet.fingerprint.0),
        forall|f: u128|
            f != packet.fingerprint.0 ==> (#[trigger] next.ack.pending.dom().contains(f)
                <==> state.ack.pending.dom().contains(f)),
        next.ack.queue == state.ack.queue,
        next.connections.dom() =~= state.connections.dom(),
{
}

/// A sign of life from another address moves the session there, and just that session.
pub proof fn a_session_follows_its_peer(
    state: StateView,
    next: StateView,
    packet: crate::manager::packets::KeepAlivePacket,
    print: u128,
    addr: Address,
    now: Timestamp,
    before: Seq<ActionView>,
    after: Seq<ActionView>,
)
    requires
        inbound::handles(
            state,
            next,
            PacketView::KeepAlive(packet),
            print,
            addr,
            now,
            before,
            after,
        ),
        state.is_up(packet.session_id),
        crate::manager::tables::has_session(
            state.address_session,
            state.conn(packet.session_id).addr(),
            packet.session_id,
        ),
    ensures
        ({
            let session = packet.session_id;
            &&& next.is_up(session)
            &&& next.conn(session).addr() == addr
            &&& next.conn(session)->Established_0.state == state.conn(
                session,
            )->Established_0.state
            &&& next.conn(session)->Established_0.last_activity == packet.timestamp.0
            &&& forall|id: u64|
                id != session.0 ==> (#[trigger] next.connections.dom().contains(id)
                    <==> state.connections.dom().contains(id))
            &&& forall|id: u64|
                id != session.0 && #[trigger] state.connections.dom().contains(id)
                    ==> next.connections[id] == state.connections[id]
            &&& crate::manager::tables::has_session(next.address_session, addr, session)
            &&& state.conn(session).addr() != addr ==> after == before.push(
                ActionView::Observe(Observation::AddressRebind { session }),
            )
            &&& state.conn(session).addr() == addr ==> after == before
        }),
{
    let session = packet.session_id;
    if state.conn(session).addr() != addr {
        let table = next.address_session;
        assert(table[addr].last() == session);
        assert(table[addr][table[addr].len() - 1] == session);
        assert(after =~= before.push(
            ActionView::Observe(Observation::AddressRebind { session }),
        ));
    } else {
        assert(after =~= before);
    }
}

/// A peer who asks for a session is remembered by the number of its handshake; a reply with
/// that number gives the session to the one who asked, at the address from which the reply
/// came; and the peer, once it gets the last packet, has it too. Each of the two then has the
/// key that is made of its own secret and of what the other one sent.
pub proof fn a_handshake_connects_both_ends(
    a: StateView,
    b: StateView,
    at_b: Address,
    at_a: Address,
    ticket_a: u64,
    ticket_b: u64,
    session: SessionId,
    handshake: HandshakeId,
    secret_a: Seq<u8>,
    secret_b: Seq<u8>,
    now: Timestamp,
    response: crate::utils::messages::AppResponse,
    drawn: SessionId,
)
    requires
        !a.has(session),
        !b.has(session),
        response is AppApproved,
    ensures
        ({
            let asked = a.connecting(at_b, ticket_a, session, handshake, secret_a, now);
            &&& asked.actions.len() == 1
            &&& asked.actions[0] matches ActionView::Send { packet: sent, addr: to_b }
            &&& to_b == at_b
            &&& sent matches PacketView::Hello(hello)
            &&& hello.proposed_session_id == session
            &&& hello.app_id == a.app_id
            &&& hello.receiving_port == a.port
            &&& asked.state.connections == a.connections
            &&& asked.state.handshakes.dom().contains(handshake)
            &&& {
                let agreed = b.answering(
                    hello,
                    at_a,
                    response,
                    ticket_b,
                    drawn,
                    secret_b,
                    now,
                );
                &&& agreed.actions.len() == 1
                &&& agreed.actions[0] matches ActionView::Send { packet: back, addr: to_a }
                &&& to_a == at_a
                &&& back matches PacketView::Hello(reply)
                &&& reply.app_id == b.app_id
                &&& agreed.state.has(session)
                &&& agreed.state.conn(session) == (ConnView::Handshake {
                    session_id: session,
                    ticket: ticket_b,
                    app_id: a.app_id,
                    address: at_a,
                })
                &&& agreed.state.encryption[session.0].key == key_exchange::x25519_of(
                    secret_b,
                    key_exchange::public_of(secret_a),
                )
                &&& {
                    let done = asked.state.answered(reply, at_b, now);
                    &&& done.state.is_up(session)
                    &&& done.state.conn(session).addr() == at_b
                    &&& done.state.conn(session).id() == session
                    &&& done.state.conn(session)->Established_0.app_id == b.app_id
                    &&& done.state.conn(session).free()
                    &&& !done.state.handshakes.dom().contains(handshake)
                    &&& done.state.encryption[session.0].key == key_exchange::x25519_of(
                        secret_a,
                        key_exchange::public_of(secret_b),
                    )
                    &&& done.state.encryption[session.0].counter == 0
                    &&& done.actions.len() == 2
                    &&& done.actions[0] == (ActionView::Connected { ticket: ticket_a, session })
                    &&& done.actions[1] matches ActionView::Send { packet: last, addr: where_b }
                    &&& where_b == at_b
                    &&& last matches PacketView::HandshakeAck(confirmed)
                    &&& confirmed.session_id == session
                    &&& agreed.state.confirmed(confirmed.session_id).is_up(session)
                    &&& agreed.state.confirmed(confirmed.session_id).conn(session).addr() == at_a
                    &&& agreed.state.confirmation(confirmed.session_id) == seq![
                        ActionView::Connected { ticket: ticket_b, session },
                        ActionView::Handshaken { session, done: true },
                    ]
                }
            }
        }),
{
}

/// A peer whose application does not want a session is told so, with the reason, and nothing
/// is kept of it; the one who asked learns the reason and forgets the handshake.
pub proof fn a_refused_handshake_is_reported(
    a: StateView,
    b: StateView,
    hello: views::HelloView,
    at_a: Address,
    ticket: u64,
    drawn: SessionId,
    secret: Seq<u8>,
    now: Timestamp,
    response: crate::utils::messages::AppResponse,
)
    requires
        response is AppRejected,
        a.handshakes.dom().contains(hello.handshake_id),
    ensures
        ({
            let reason = response->AppRejected_0@;
            let refused = b.answering(hello, at_a, response, ticket, drawn, secret, now);
            &&& refused.state == b
            &&& refused.actions.len() == 1
            &&& refused.actions[0] matches ActionView::Send { packet, addr }
            &&& addr == at_a
            &&& packet matches PacketView::HandshakeRejection(rejection)
            &&& rejection.reason == HandshakeRejectionReason::App
            &&& rejection.handshake_id == hello.handshake_id
            &&& rejection.payload == reason
            &&& {
                let step = a.refused(rejection);
                &&& !step.state.handshakes.dom().contains(hello.handshake_id)
                &&& step.state.connections == a.connections
                &&& step.actions.len() == 1
                &&& step.actions[0] matches ActionView::Failed { ticket: whose, error }
                &&& whose == a.handshakes[hello.handshake_id].ticket
                &&& error matches ConnectionErrorView::PeerRejected(why)
                &&& why matches Some(text) ==> text == reason
                &&& why is None ==> reason == seq![0u8] || !vstd::utf8::valid_utf8(reason)
            }
        }),
{
}

/// A number that is taken here is not used for a new session: the peer is told, and the
/// handshake goes on under another number, for the same waiter and the same address.
pub proof fn a_taken_number_is_not_used(
    a: StateView,
    reply: views::HelloView,
    at_b: Address,
    session: SessionId,
    handshake: HandshakeId,
    secret: Seq<u8>,
    now: Timestamp,
)
    requires
        a.handshakes.dom().contains(reply.handshake_id),
    ensures
        ({
            let step = a.colliding(reply, at_b, session, handshake, secret, now);
            let kept = a.handshakes[reply.handshake_id];
            &&& step.state.connections == a.connections
            &&& step.state.handshakes.dom().contains(handshake)
            &&& handshake != reply.handshake_id ==> !step.state.handshakes.dom().contains(
                reply.handshake_id,
            )
            &&& step.state.handshakes[handshake].ticket == kept.ticket
            &&& step.state.handshakes[handshake].peer_address == kept.peer_address
            &&& step.state.handshakes[handshake].secret == secret
            &&& step.actions.len() == 2
            &&& step.actions[0] matches ActionView::Send { packet: first, addr: to }
            &&& to == at_b
            &&& first matches PacketView::HandshakeRejection(rejection)
            &&& rejection.reason == HandshakeRejectionReason::IdCollision
            &&& rejection.session_id == reply.proposed_session_id
            &&& step.actions[1] matches ActionView::Send { packet: second, addr: again }
            &&& again == at_b
            &&& second matches PacketView::Hello(hello)
            &&& hello.handshake_id == handshake
            &&& hello.proposed_session_id == session
            &&& hello.public_key == key_exchange::public_of(secret)
        }),
{
}

/// One who waits for a session whose number the peer cannot use learns that, and the session
/// is gone.
pub proof fn a_collision_is_reported(
    state: StateView,
    rejection: views::HandshakeRejectionView,
)
    requires
        rejection.reason == HandshakeRejectionReason::IdCollision,
    ensures
        ({
            let step = state.refused(rejection);
            let session = rejection.session_id;
            &&& !step.state.has(session)
            &&& step.state.handshakes == state.handshakes
            &&& forall|id: u64|
                id != session.0 && #[trigger] state.connections.dom().contains(id)
                    ==> step.state.connections.dom().contains(id) && step.state.connections[id]
                    == state.connections[id]
            &&& state.has(session) && state.conn(session) is Handshake ==> step.actions == seq![
                ActionView::Failed {
                    ticket: state.conn(session)->ticket,
                    error: ConnectionErrorView::SessionIdCollided,
                },
            ]
            &&& !(state.has(session) && state.conn(session) is Handshake) ==> step.actions.len()
                == 0
        }),
{
}

/// A peer that talks another version is told so, where it sent from and where it listens by
/// default.
pub proof fn another_version_is_reported(src: Address)
    ensures
        ({
            let replies = received::version_replies(src);
            &&& replies.last() matches ActionView::Send { packet, addr }
            &&& addr == src
            &&& packet is IncompatibleVersion
            &&& src.spec_port() == DEFAULT_PORT ==> replies.len() == 1
            &&& src.spec_port() != DEFAULT_PORT ==> replies.len() == 2 && (
            replies[0] matches ActionView::Send { packet: other, addr: there } && other
                is IncompatibleVersion && there == src.at_port(DEFAULT_PORT))
        }),
{
}

/// Whether bytes are those of a buffer with a chunk put into it.
pub open spec fn holds_with(
    data: Seq<u8>,
    buffer: WriteableView,
    at: int,
    payload: Seq<u8>,
) -> bool {
    &&& data.len() == buffer.data.len()
    &&& forall|b: int|
        0 <= b < data.len() ==> #[trigger] data[b] == if at <= b < at + payload.len() {
            payload[b - at]
        } else {
            buffer.data[b]
        }
}

/// A data packet that fits the stream of its connection is put into it: the stream goes on
/// with its bytes, or it is complete by them, and then the application is handed all of it
/// and the connection is free.
pub proof fn data_is_taken_or_completes(
    before: ConnView,
    after: ConnView,
    fec0: Fec,
    fec1: Fec,
    packet: views::DataView,
    now: Timestamp,
    r: Result<bool, Error>,
    actions: Seq<ActionView>,
)
    requires
        connection::data_taken(before, after, fec0, fec1, packet, now, r, actions),
        before.flat() == FlatState::StreamingFrom,
        before.stream().streaming->From_0.buffer.wf(),
    ensures
        ({
            let buffer = before.stream().streaming->From_0.buffer;
            let at = packet.byte_range_start.0 as int;
            let fits = arrival_laws::fits(buffer, at, packet.payload.len() as int);
            &&& after is Established
            &&& after.addr() == before.addr()
            &&& after.id() == before.id()
            &&& r is Ok <==> fits
            &&& !fits ==> after.flat() == FlatState::StreamingFrom
                && after.stream().streaming->From_0.buffer == buffer
            &&& fits && after.flat() == FlatState::StreamingFrom ==> arrival_laws::wrote(
                buffer,
                after.stream().streaming->From_0.buffer,
                at,
                packet.payload,
            ) && after.stream().streaming->From_0.buffer.wf()
            &&& fits && after.flat() != FlatState::StreamingFrom ==> after.free() && r == Ok::<
                bool,
                Error,
            >(false) && completes(actions, buffer, before.addr(), packet)
            &&& fits && after.flat() == FlatState::StreamingFrom && packet.payload.len() <= 1384
                && packet.fec_info.batch_size > 0 && packet.fec_info.recovery_count > 0
                ==> fec0.receives(
                fec1,
                before.stream().streaming->From_0.fec_config.scheme,
                packet.batch_id,
                packet.session_id,
                packet.fec_info,
                false,
                fec::data::fec_image(packet.byte_range_start.0, packet.payload),
                now,
                r->Ok_0,
            )
            &&& !fits ==> fec1 == fec0
        }),
{
    let stream = before.stream();
    let from = stream.streaming->From_0;
    arrival_laws::every_data_packet_is_put_in_place(
        from,
        stream.message,
        stream.fec,
        packet,
        before.addr(),
        now,
    );
    let step = stream_state::data_step(
        from,
        stream.message,
        stream.fec,
        packet,
        before.addr(),
        now,
    );
    if step.outcome == Outcome::Done {
        let n = step.actions.len() as int;
        let data = step.stream.streaming->From_0.buffer.data;
        let received = ActionView::Received { session: packet.session_id, data };
        assert(actions[n] == received);
        assert(actions[n - 1] == step.actions.last());
        assert(hands_over(actions[n], from.buffer, packet));
        assert(arrival_laws::says_done(actions[n - 1], packet.session_id, before.addr()));
    }
}

/// Whether an action hands the application the bytes of a buffer with a packet put into it.
pub open spec fn hands_over(
    action: ActionView,
    buffer: WriteableView,
    packet: views::DataView,
) -> bool {
    &&& action matches ActionView::Received { session, data }
    &&& session == packet.session_id
    &&& holds_with(data, buffer, packet.byte_range_start.0 as int, packet.payload)
}

/// Whether the peer is told that its stream has arrived, and the application is handed all of
/// it.
pub open spec fn completes(
    actions: Seq<ActionView>,
    buffer: WriteableView,
    address: Address,
    packet: views::DataView,
) -> bool {
    exists|i: int|
        0 < i < actions.len() && hands_over(#[trigger] actions[i], buffer, packet)
            && arrival_laws::says_done(actions[i - 1], packet.session_id, address)
}

/// Packets recovered from a batch are put into the stream of the connection, each in its place,
/// unless one of them does not fit; whatever had arrived stays.
pub proof fn recovered_packets_reach_the_stream(
    conn: ConnView,
    after: ConnView,
    batch_id: BatchID,
    session: SessionId,
    batch: Recovered,
    now: Timestamp,
    actions: Seq<ActionView>,
    told: Seq<ActionView>,
)
    requires
        received_data::recovery(
            conn,
            after,
            batch_id,
            session,
            Some(batch),
            now,
            actions,
            told,
        ),
        conn.flat() == FlatState::StreamingFrom,
        conn.stream().streaming->From_0.buffer.wf(),
    ensures
        ({
            let buffer = conn.stream().streaming->From_0.buffer;
            let now_there = after.stream().streaming->From_0.buffer;
            let packets = stream_state::recovered_views(batch.packets@);
            &&& after.flat() == FlatState::StreamingFrom
            &&& after.addr() == conn.addr()
            &&& after.id() == conn.id()
            &&& now_there.wf()
            &&& now_there.filled.len() == buffer.filled.len()
            &&& forall|c: int|
                0 <= c < buffer.filled.len() && #[trigger] buffer.filled[c] ==> now_there.filled[c]
            &&& arrival_laws::are_missing_chunks(buffer, packets) ==> {
                &&& forall|k: int|
                    0 <= k < batch.packets@.len() ==> now_there.filled[(
                    #[trigger] batch.packets@[k]).byte_range_start.0 as int / 1384]
                        && now_there.data.subrange(
                        batch.packets@[k].byte_range_start.0 as int,
                        batch.packets@[k].byte_range_start.0 + batch.packets@[k].payload@.len(),
                    ) == batch.packets@[k].payload@
                &&& arrival_laws::wrote_all(buffer, now_there, packets)
            }
        }),
{
    let stream = conn.stream();
    let from = stream.streaming->From_0;
    let packets = stream_state::recovered_views(batch.packets@);
    arrival_laws::every_recovered_packet_is_put_in_place(
        from,
        stream.message,
        stream.fec,
        batch.batch_id,
        packets,
        conn.id(),
        conn.addr(),
        now,
    );
    arrival_laws::recovery_keeps_what_arrived(
        from,
        stream.message,
        stream.fec,
        batch.batch_id,
        packets,
        conn.id(),
        conn.addr(),
        now,
    );
    let now_there = after.stream().streaming->From_0.buffer;
    if arrival_laws::are_missing_chunks(from.buffer, packets) {
        assert forall|k: int| 0 <= k < batch.packets@.len() implies now_there.filled[(
        #[trigger] batch.packets@[k]).byte_range_start.0 as int / 1384] && now_there.data.subrange(
            batch.packets@[k].byte_range_start.0 as int,
            batch.packets@[k].byte_range_start.0 + batch.packets@[k].payload@.len(),
        ) == batch.packets@[k].payload@ by {
            assert(packets[k].at == batch.packets@[k].byte_range_start);
            assert(packets[k].payload == batch.packets@[k].payload@);
        }
    }
}

/// A data packet that comes in reaches the stream of its session: its chunk counts as arrived
/// if the stream goes on, and all of the stream is handed to the application if that makes it
/// complete. It is acknowledged if that is wanted. No other session is touched.
pub proof fn data_reaches_its_stream(
    state: StateView,
    next: StateView,
    packet: views::DataView,
    print: u128,
    now: Timestamp,
    told: Seq<ActionView>,
    intake: DataIntake,
)
    requires
        state.takes_data(next, packet, print, now, told, intake),
        state.receives(packet.session_id),
        control_laws::receiver(state, packet.session_id).buffer.wf(),
        arrival_laws::fits(
            control_laws::receiver(state, packet.session_id).buffer,
            packet.byte_range_start.0 as int,
            packet.payload.len() as int,
        ),
    ensures
        ({
            let session = packet.session_id;
            let at = packet.byte_range_start.0 as int;
            let buffer = control_laws::receiver(state, session).buffer;
            &&& next.is_up(session)
            &&& next.conn(session).addr() == state.conn(session).addr()
            &&& forall|id: u64|
                id != session.0 && #[trigger] state.connections.dom().contains(id)
                    ==> next.connections.dom().contains(id) && next.connections[id]
                    == state.connections[id]
            &&& next.receives(session) ==> control_laws::receiver(next, session).buffer.filled[at
                / 1384]
            &&& next.receives(session) && intake.recovered is None ==> arrival_laws::wrote(
                buffer,
                control_laws::receiver(next, session).buffer,
                at,
                packet.payload,
            )
            &&& !next.receives(session) ==> next.conn(session).free() && completes(
                told,
                buffer,
                state.conn(session).addr(),
                packet,
            )
            &&& packets::wants_ack(packet.opts) ==> told.len() > 0 && acknowledges(
                told[0],
                session,
                state.conn(session).addr(),
                print,
            )
        }),
{
    let session = packet.session_id;
    let heard = state.heard(session, packet.timestamp);
    let acked = heard.data_acks(packet, print, now);
    let conn = heard.conn(session);
    let rest = told.skip(acked.len() as int);
    let at = packet.byte_range_start.0 as int;
    let buffer = control_laws::receiver(state, session).buffer;
    assert(conn.stream() == state.conn(session).stream());
    assert(conn.flat() == FlatState::StreamingFrom);
    if packets::wants_ack(packet.opts) {
        assert(told.take(acked.len() as int)[0] == told[0]);
    }
    data_is_taken_or_completes(
        conn,
        intake.conn,
        heard.fec,
        intake.fec,
        packet,
        now,
        intake.r,
        intake.told,
    );
    if intake.r == Ok::<bool, Error>(true) {
        match intake.recovered {
            Some(batch) => {
                recovered_packets_reach_the_stream(
                    intake.conn,
                    next.conn(session),
                    packet.batch_id,
                    session,
                    batch,
                    now,
                    rest,
                    intake.told,
                );
                assert(intake.conn.stream().streaming->From_0.buffer.filled[at / 1384]);
            },
            None => {},
        }
    } else {
        assert(next.conn(session) == intake.conn);
        if intake.conn.flat() != FlatState::StreamingFrom {
            let i = choose|i: int|
                0 < i < rest.len() && hands_over(#[trigger] rest[i], buffer, packet)
                    && arrival_laws::says_done(rest[i - 1], session, conn.addr());
            let j = acked.len() as int + i;
            assert(told[j] == rest[i]);
            assert(told[j - 1] == rest[i - 1]);
        }
    }
}

/// A recovery packet that makes a batch recoverable brings what was recovered into the stream
/// of its session, each packet in its place; without that the stream is left alone.
pub proof fn parity_reaches_its_stream(
    state: StateView,
    next: StateView,
    packet: views::ParityView,
    print: u128,
    now: Timestamp,
    told: Seq<ActionView>,
    intake: ParityIntake,
)
    requires
        state.takes_parity(next, packet, print, now, told, intake),
        state.receives(packet.session_id),
        control_laws::receiver(state, packet.session_id).buffer.wf(),
        fec::codable(packet.fec_info, state.scheme(packet.session_id)),
    ensures
        ({
            let session = packet.session_id;
            let before = control_laws::receiver(state, session).buffer;
            let after = control_laws::receiver(next, session).buffer;
            &&& next.receives(session)
            &&& next.conn(session).addr() == state.conn(session).addr()
            &&& forall|id: u64|
                id != session.0 && #[trigger] state.connections.dom().contains(id)
                    ==> next.connections.dom().contains(id) && next.connections[id]
                    == state.connections[id]
            &&& intake.recoverable ==> (intake.recovered matches Some(batch) ==> {
                &&& batch.session_id == session
                &&& batch.batch_id == packet.batch_id
                &&& arrival_laws::are_missing_chunks(
                    before,
                    stream_state::recovered_views(batch.packets@),
                ) ==> forall|k: int|
                    0 <= k < batch.packets@.len() ==> after.filled[(
                    #[trigger] batch.packets@[k]).byte_range_start.0 as int / 1384]
                        && after.data.subrange(
                        batch.packets@[k].byte_range_start.0 as int,
                        batch.packets@[k].byte_range_start.0 + batch.packets@[k].payload@.len(),
                    ) == batch.packets@[k].payload@
            })
            &&& !intake.recoverable || intake.recovered is None ==> after == before && told.len()
                == 0
        }),
{
    let session = packet.session_id;
    let heard = state.heard(session, packet.timestamp);
    let conn = heard.conn(session);
    assert(conn.stream() == state.conn(session).stream());
    assert(heard.receives(session));
    assert(heard.scheme(session) == state.scheme(session));
    if intake.recoverable {
        match intake.recovered {
            Some(batch) => {
                recovered_packets_reach_the_stream(
                    conn,
                    next.conn(session),
                    packet.batch_id,
                    session,
                    batch,
                    now,
                    told,
                    seq![],
                );
            },
            None => {},
        }
    }
}

/// Data and recovery packets are handled as such: what comes of them is what their stream
/// makes of them. A data packet for a session whose handshake is not done is held.
pub proof fn packets_of_a_stream_are_handed_to_it(
    state: StateView,
    next: StateView,
    packet: PacketView,
    session: SessionId,
    print: u128,
    addr: Address,
    now: Timestamp,
    before: Seq<ActionView>,
    after: Seq<ActionView>,
)
    requires
        inbound::handles(state, next, packet, print, addr, now, before, after),
        packet.session() == Some(session),
    ensures
        packet matches PacketView::Data(p) ==> (if state.has(session) && state.conn(session)
            is Handshake {
            next == state && after == before.push(ActionView::Hold { packet })
        } else {
            exists|intake: DataIntake| #[trigger]
                state.takes_data(next, p, print, now, after.skip(before.len() as int), intake)
        }),
        packet matches PacketView::Parity(p) ==> exists|intake: ParityIntake| #[trigger]
            state.takes_parity(next, p, print, now, after.skip(before.len() as int), intake),
{
    if packet is Data && state.has(session) && state.conn(session) is Handshake {
        assert(after =~= before.push(ActionView::Hold { packet }));
    }
}

/// A packet that does not belong where it came is answered, where the session's peer is, with a
/// complaint that names it; a session that is not there is not answered for.
pub proof fn complaints_name_the_packet(
    state: StateView,
    session: SessionId,
    print: u128,
    now: Timestamp,
)
    ensures
        ({
            let told = state.complains(session, print, now);
            &&& !state.has(session) ==> told.len() == 0
            &&& state.has(session) ==> {
                &&& told.len() == 1
                &&& told[0] matches ActionView::Send { packet, addr }
                &&& addr == state.conn(session).addr()
                &&& packet matches PacketView::UnexpectedError(complaint)
                &&& complaint.session_id == session
                &&& complaint.received_fingerprint.0 == print
                &&& complaint.timestamp == now
            }
        }),
{
}

/// A sign of life names its session and when it was given, and so moves the session to where it
/// came from.
pub proof fn a_sign_of_life_names_its_session(session: SessionId, now: Timestamp)
    ensures
        state::keep_alive_view(session, now) matches PacketView::KeepAlive(packet)
            && packet.session_id == session && packet.timestamp == now,
        crate::manager::endpoints::close_session_packet(session, now)@ matches PacketView::CloseSession(
            packet,
        ) && packet.session_id == session && packet.timestamp == now,
{
}

/// A recovery packet that is the one thing a batch still needed makes its lost packet come
/// back and reach the stream: the block that was lost is all the others and the parity
/// combined.
pub proof fn parity_that_completes_a_batch_recovers_it(
    state: StateView,
    next: StateView,
    packet: views::ParityView,
    print: u128,
    now: Timestamp,
    told: Seq<ActionView>,
    intake: ParityIntake,
    batch: fec::xor::InboundView,
    at: u32,
    payload: Seq<u8>,
)
    requires
        state.takes_parity(next, packet, print, now, told, intake),
        state.receives(packet.session_id),
        control_laws::receiver(state, packet.session_id).buffer.wf(),
        state.scheme(packet.session_id) == FecScheme::Xor,
        packet.fec_info.batch_size > 0,
        state.fec.xor.inbound_at(fec::positions::batch_key(packet.batch_id, packet.session_id))
            == Some(batch),
        batch.parity is None,
        batch.data_received + 1 == batch.batch_size,
        packet.payload.len() == fec::data::FEC_DATA_SIZE,
        payload.len() <= 1384,
        fec::data::xor_bytes(batch.product, packet.payload) == fec::data::fec_image(at, payload),
        at % 1384 == 0,
        arrival_laws::fits(
            control_laws::receiver(state, packet.session_id).buffer,
            at as int,
            payload.len() as int,
        ),
    ensures
        next.receives(packet.session_id),
        ({
            let buffer = control_laws::receiver(next, packet.session_id).buffer;
            &&& buffer.filled[at as int / 1384]
            &&& buffer.data.subrange(at as int, at + payload.len()) == payload
        }),
        next.fec.xor.inbound_at(
            fec::positions::batch_key(packet.batch_id, packet.session_id),
        ) is None,
{
    let session = packet.session_id;
    let key = fec::positions::batch_key(packet.batch_id, session);
    let before = control_laws::receiver(state, session).buffer;
    let heard = state.heard(session, packet.timestamp);
    assert(heard.receives(session));
    assert(heard.conn(session).stream() == state.conn(session).stream());
    assert(heard.scheme(session) == FecScheme::Xor);
    assert(fec::data::parity_image(packet.payload) =~= packet.payload);
    fec::data::block_holds_packet(at, payload);
    assert(intake.recoverable);
    assert(intake.recovered is Some);
    let lost = intake.recovered->0;
    assert(lost.packets@.len() == 1);
    assert(lost.packets@[0].byte_range_start.0 == at);
    assert(lost.packets@[0].payload@ == payload);
    let views = stream_state::recovered_views(lost.packets@);
    assert(views[0].at.0 == at && views[0].payload == payload);
    assert(arrival_laws::are_missing_chunks(before, views));
    parity_reaches_its_stream(state, next, packet, print, now, told, intake);
    assert(lost.packets@[0].byte_range_start.0 as int / 1384 == at as int / 1384);
}

/// A data packet that makes its batch recoverable has the batch recovered, and what comes of
/// that reaches the stream.
pub proof fn data_that_completes_a_batch_recovers_it(
    state: StateView,
    next: StateView,
    packet: views::DataView,
    print: u128,
    now: Timestamp,
    told: Seq<ActionView>,
    intake: DataIntake,
)
    requires
        state.takes_data(next, packet, print, now, told, intake),
        state.receives(packet.session_id),
        control_laws::receiver(state, packet.session_id).buffer.wf(),
        intake.r == Ok::<bool, Error>(true),
    ensures
        ({
            let session = packet.session_id;
            let scheme = state.scheme(session);
            &&& intake.fec.recovers(
                next.fec,
                scheme,
                packet.batch_id,
                session,
                match intake.recovered {
                    Some(batch) => Some(batch.packets),
                    None => None,
                },
            )
            &&& next.receives(session)
            &&& intake.recovered matches Some(batch) ==> arrival_laws::are_missing_chunks(
                intake.conn.stream().streaming->From_0.buffer,
                stream_state::recovered_views(batch.packets@),
            ) ==> forall|k: int|
                0 <= k < batch.packets@.len() ==> control_laws::receiver(
                    next,
                    session,
                ).buffer.filled[(#[trigger] batch.packets@[k]).byte_range_start.0 as int / 1384]
                    && control_laws::receiver(next, session).buffer.data.subrange(
                    batch.packets@[k].byte_range_start.0 as int,
                    batch.packets@[k].byte_range_start.0 + batch.packets@[k].payload@.len(),
                ) == batch.packets@[k].payload@
        }),
{
    let session = packet.session_id;
    let heard = state.heard(session, packet.timestamp);
    let acked = heard.data_acks(packet, print, now);
    let conn = heard.conn(session);
    let rest = told.skip(acked.len() as int);
    assert(conn.stream() == state.conn(session).stream());
    assert(conn.flat() == FlatState::StreamingFrom);
    data_is_taken_or_completes(
        conn,
        intake.conn,
        heard.fec,
        intake.fec,
        packet,
        now,
        intake.r,
        intake.told,
    );
    match intake.recovered {
        Some(batch) => {
            recovered_packets_reach_the_stream(
                intake.conn,
                next.conn(session),
                packet.batch_id,
                session,
                batch,
                now,
                rest,
                intake.told,
            );
        },
        None => {},
    }
}

/// An offer whose number is taken here is accepted under the number that was drawn instead; one
/// whose number is free, under its own. The peer learns which.
pub proof fn a_taken_number_is_replaced(
    b: StateView,
    hello: views::HelloView,
    at_a: Address,
    ticket: u64,
    drawn: SessionId,
    secret: Seq<u8>,
    now: Timestamp,
    response: crate::utils::messages::AppResponse,
)
    requires
        response is AppApproved,
        !b.has(drawn),
    ensures
        ({
            let session = if b.has(hello.proposed_session_id) {
                drawn
            } else {
                hello.proposed_session_id
            };
            let step = b.answering(hello, at_a, response, ticket, drawn, secret, now);
            &&& step.state.has(session)
            &&& step.state.conn(session) is Handshake
            &&& step.state.conn(session).addr() == at_a
            &&& forall|id: u64|
                #[trigger] b.connections.dom().contains(id) ==> step.state.connections.dom().contains(
                    id,
                ) && step.state.connections[id] == b.connections[id]
            &&& step.actions.len() == 1
            &&& step.actions[0] matches ActionView::Send { packet, addr }
            &&& addr == at_a
            &&& packet matches PacketView::Hello(reply)
            &&& reply.proposed_session_id == session
            &&& reply.handshake_id == hello.handshake_id
            &&& reply.public_key == key_exchange::public_of(secret)
            &&& packets::wants_ack(reply.opts)
        }),
{
    packets::ack_can_be_asked_for(crate::manager::fields::Options(0));
}

/// A packet that the application refuses is named in the answer, with the reason.
pub proof fn a_refused_packet_is_named(
    opts: crate::manager::fields::Options,
    session: SessionId,
    packet_type: crate::manager::fields::PacketType,
    control_type: crate::manager::fields::ControlType,
    print: u128,
    message: Seq<u8>,
    now: Timestamp,
)
    ensures
        crate::manager::send::app_rejected_view(
            opts,
            session,
            packet_type,
            control_type,
            print,
            message,
            now,
        ) matches PacketView::AppRejectError(answer) && answer.session_id == session
            && answer.received_type == packet_type && answer.received_control_type == control_type
            && answer.received_fingerprint.0 == print && answer.payload == message
            && answer.timestamp == now && packets::wants_ack(answer.opts),
{
    packets::ack_can_be_asked_for(opts);
}

/// Whether an action complains to the peer at `address` about a packet.
pub open spec fn complains_about(
    action: ActionView,
    session: SessionId,
    address: Address,
    print: u128,
) -> bool {
    &&& action matches ActionView::Send { packet, addr }
    &&& addr == address
    &&& packet matches PacketView::UnexpectedError(complaint)
    &&& complaint.session_id == session
    &&& complaint.received_fingerprint.0 == print
}

/// Data for a session that receives nothing changes nothing but when the peer was heard of, and
/// the peer is told that it was not expected.
pub proof fn unexpected_data_is_answered(
    state: StateView,
    next: StateView,
    packet: views::DataView,
    print: u128,
    now: Timestamp,
    told: Seq<ActionView>,
    intake: DataIntake,
)
    requires
        state.takes_data(next, packet, print, now, told, intake),
        state.is_up(packet.session_id),
        !state.receives(packet.session_id),
    ensures
        ({
            let session = packet.session_id;
            &&& next.is_up(session)
            &&& next.conn(session)->Established_0.state == state.conn(
                session,
            )->Established_0.state
            &&& next.conn(session)->Established_0.last_activity == packet.timestamp.0
            &&& next.fec == state.fec
            &&& told.len() > 0
            &&& complains_about(told.last(), session, state.conn(session).addr(), print)
        }),
{
    let session = packet.session_id;
    let heard = state.heard(session, packet.timestamp);
    let acked = heard.data_acks(packet, print, now);
    let rest = told.skip(acked.len() as int);
    assert(heard.conn(session).flat() == state.conn(session).flat());
    assert(rest.len() == 1);
    assert(told.last() == rest[0]);
}

/// What was recovered for a session that receives nothing goes nowhere, and the peer is told
/// that it was not expected.
pub proof fn unexpected_recovery_is_answered(
    state: StateView,
    next: StateView,
    packet: views::ParityView,
    print: u128,
    now: Timestamp,
    told: Seq<ActionView>,
    intake: ParityIntake,
)
    requires
        state.takes_parity(next, packet, print, now, told, intake),
        state.is_up(packet.session_id),
        !state.receives(packet.session_id),
    ensures
        ({
            let session = packet.session_id;
            &&& next.is_up(session)
            &&& next.conn(session)->Established_0.state == state.conn(
                session,
            )->Established_0.state
            &&& told.len() > 0 ==> told.len() == 1 && complains_about(
                told[0],
                session,
                state.conn(session).addr(),
                print,
            ) && intake.recoverable && intake.recovered is Some
            &&& intake.recovered is Some && intake.recoverable && fec::codable(
                packet.fec_info,
                state.heard(session, packet.timestamp).parity_scheme(packet),
            ) ==> told.len() == 1
        }),
{
    let session = packet.session_id;
    let heard = state.heard(session, packet.timestamp);
    assert(heard.conn(session).flat() == state.conn(session).flat());
}

} // verus!
