//! What each kind of packet does when it comes in.
use vstd::prelude::*;

use crate::error::ConnectionErrorView;
use crate::manager::connection::{ConnView, SessionStateView};
use crate::manager::control_laws;
use crate::manager::fields::{HandshakeRejectionReason, PlaybackControlType, SessionId};
use crate::manager::identity::Address;
use crate::manager::inbound;
use crate::manager::packets::{HandshakeAckPacket, PlaybackStatusPacket};
use crate::manager::playback_laws;
use crate::manager::session_laws;
use crate::manager::state::StateView;
use crate::manager::types::Timestamp;
use crate::manager::views;
use crate::manager::views::PacketView;
use crate::utils::messages::{
    ActionView, ConnectionEventView, PlaybackControl, StreamEventView, StreamMessage,
};

verus! {

/// A peer who confirms a session gets it: it is established where it was, the one who waited
/// for it learns so, and so do those who held packets for it. For a session that is there
/// already nothing happens.
pub proof fn a_confirmed_session_is_there(
    state: StateView,
    next: StateView,
    packet: HandshakeAckPacket,
    print: u128,
    addr: Address,
    now: Timestamp,
    before: Seq<ActionView>,
    after: Seq<ActionView>,
)
    requires
        inbound::handles(
            state,
            next,
            PacketView::HandshakeAck(packet),
            print,
            addr,
            now,
            before,
            after,
        ),
        state.has(packet.session_id),
        state.conn(packet.session_id).id() == packet.session_id,
    ensures
        ({
            let session = packet.session_id;
            &&& next.is_up(session)
            &&& next.conn(session).addr() == state.conn(session).addr()
            &&& next.conn(session).id() == session
            &&& playback_laws::same_elsewhere(state, next, session)
            &&& state.conn(session) matches ConnView::Handshake {
                session_id: _,
                ticket,
                app_id,
                address: _,
            } ==> after == before.push(ActionView::Connected { ticket, session }).push(
                ActionView::Handshaken { session, done: true },
            ) && next.conn(session).free() && next.conn(session)->Established_0.app_id == app_id
            &&& state.conn(session) is Established ==> next == state && after == before
        }),
{
    let session = packet.session_id;
    match state.conn(session) {
        ConnView::Handshake { session_id, ticket, app_id, address } => {
            assert(after =~= before.push(ActionView::Connected { ticket, session }).push(
                ActionView::Handshaken { session, done: true },
            ));
        },
        ConnView::Established(_) => {
            assert(after =~= before);
        },
    }
}

/// A peer who asks for a stream is heard by the application: it learns the name and the coding
/// that are asked for.
pub proof fn a_request_is_announced(
    state: StateView,
    next: StateView,
    session: SessionId,
    id: Seq<u8>,
    config: crate::manager::ranges::FecConfig,
    sent: Timestamp,
    print: u128,
    addr: Address,
    now: Timestamp,
    before: Seq<ActionView>,
    after: Seq<ActionView>,
)
    requires
        inbound::handles(
            state,
            next,
            crate::manager::endpoints::track_request_view(session, id, config, sent),
            print,
            addr,
            now,
            before,
            after,
        ),
        state.is_up(session),
    ensures
        after == before.push(
            ActionView::Notify { session, news: ConnectionEventView::TrackRequest(id, config) },
        ),
        next.is_up(session),
        next.conn(session)->Established_0.last_activity == sent.0,
        next.conn(session)->Established_0.state == state.conn(session)->Established_0.state,
        next.conn(session).addr() == state.conn(session).addr(),
        playback_laws::same_elsewhere(state, next, session),
{
    crate::manager::endpoints::request_is_understood(id, config);
    assert(after =~= before.push(
        ActionView::Notify { session, news: ConnectionEventView::TrackRequest(id, config) },
    ));
}

/// A peer who refuses a stream is heard by the application, and nothing else changes.
pub proof fn a_refusal_is_announced(
    state: StateView,
    next: StateView,
    packet: views::TrackRejectionView,
    print: u128,
    addr: Address,
    now: Timestamp,
    before: Seq<ActionView>,
    after: Seq<ActionView>,
)
    requires
        inbound::handles(
            state,
            next,
            PacketView::TrackRejection(packet),
            print,
            addr,
            now,
            before,
            after,
        ),
        state.streams(packet.session_id),
    ensures
        ({
            let session = packet.session_id;
            let message = StreamMessage {
                approved: Some(false),
                ..control_laws::message_of(state, session)
            };
            &&& after == before.push(ActionView::Publish { session, message })
            &&& control_laws::only_message_changes(state, next, session)
            &&& control_laws::message_of(next, session) == message
        }),
{
    let session = packet.session_id;
    let message = StreamMessage { approved: Some(false), ..control_laws::message_of(state, session) };
    assert(after =~= before.push(ActionView::Publish { session, message }));
}

/// What a receiver wants of a stream reaches the one who sends it; if it wants no more, the
/// stream is closed at once, at either end.
pub proof fn a_wish_is_passed_on(
    state: StateView,
    next: StateView,
    packet: PlaybackStatusPacket,
    print: u128,
    addr: Address,
    now: Timestamp,
    before: Seq<ActionView>,
    after: Seq<ActionView>,
)
    requires
        inbound::handles(
            state,
            next,
            PacketView::PlaybackStatus(packet),
            print,
            addr,
            now,
            before,
            after,
        ),
        state.streams(packet.session_id),
    ensures
        ({
            let session = packet.session_id;
            let connection = state.conn(session);
            let told = after.skip(before.len() as int);
            &&& packet.control_type == PlaybackControlType::Stop ==> {
                &&& next.is_up(session)
                &&& next.conn(session)->Established_0.state == SessionStateView::Up
                &&& next.conn(session).addr() == connection.addr()
                &&& playback_laws::same_elsewhere(state, next, session)
                &&& after == before + told
                &&& session_laws::hands_back(told, connection, session)
                &&& told.contains(
                    ActionView::Publish {
                        session,
                        message: StreamMessage { closed: true, ..connection.stream().message },
                    },
                )
            }
            &&& packet.control_type != PlaybackControlType::Stop ==> next == state
            &&& packet.control_type != PlaybackControlType::Stop && state.sends(session) ==> {
                &&& after.len() == before.len() + 1
                &&& after.take(before.len() as int) == before
                &&& packet.control_type == PlaybackControlType::Play ==> after.last() == (
                ActionView::Signal {
                    session,
                    event: StreamEventView::Playback(PlaybackControl::Play),
                })
                &&& packet.control_type == PlaybackControlType::Pause ==> after.last() == (
                ActionView::Signal {
                    session,
                    event: StreamEventView::Playback(PlaybackControl::Pause),
                })
                &&& packet.control_type == PlaybackControlType::Done ==> after.last() == (
                ActionView::Signal {
                    session,
                    event: StreamEventView::Playback(PlaybackControl::Done),
                })
                &&& packet.control_type == PlaybackControlType::Seek && packet.seek_position is Some
                    ==> after.last() == (ActionView::Signal {
                    session,
                    event: StreamEventView::Playback(
                        PlaybackControl::Seek(packet.seek_position->0),
                    ),
                })
            }
            &&& packet.control_type != PlaybackControlType::Stop && state.receives(session)
                ==> after == before
        }),
{
    let session = packet.session_id;
    let told = after.skip(before.len() as int);
    session_laws::a_closed_stream_frees_its_session(state, session);
    if packet.control_type == PlaybackControlType::Stop {
        assert(told =~= state.stream_end(session));
    } else if state.sends(session) {
        assert(after.take(before.len() as int) =~= before);
    } else {
        assert(after =~= before);
    }
}

/// A peer whose application refuses a session ends the handshake, and the one who waits for it
/// learns so.
pub proof fn a_refused_session_is_announced(
    state: StateView,
    next: StateView,
    packet: views::HandshakeRejectionView,
    print: u128,
    addr: Address,
    now: Timestamp,
    before: Seq<ActionView>,
    after: Seq<ActionView>,
)
    requires
        inbound::handles(
            state,
            next,
            PacketView::HandshakeRejection(packet),
            print,
            addr,
            now,
            before,
            after,
        ),
    ensures
        packet.reason == HandshakeRejectionReason::App && state.handshakes.dom().contains(
            packet.handshake_id,
        ) ==> {
            &&& !next.handshakes.dom().contains(packet.handshake_id)
            &&& next.connections == state.connections
            &&& after.len() == before.len() + 1
            &&& after.take(before.len() as int) == before
            &&& after.last() matches ActionView::Failed { ticket, error }
            &&& ticket == state.handshakes[packet.handshake_id].ticket
            &&& error is PeerRejected
        },
        packet.reason == HandshakeRejectionReason::IdCollision && state.has(packet.session_id)
            && state.conn(packet.session_id) is Handshake ==> {
            &&& !next.has(packet.session_id)
            &&& next.handshakes == state.handshakes
            &&& after == before.push(
                ActionView::Failed {
                    ticket: state.conn(packet.session_id)->ticket,
                    error: ConnectionErrorView::SessionIdCollided,
                },
            )
        },
{
    if packet.reason == HandshakeRejectionReason::App && state.handshakes.dom().contains(
        packet.handshake_id,
    ) {
        assert(after.take(before.len() as int) =~= before);
    }
    if packet.reason == HandshakeRejectionReason::IdCollision && state.has(packet.session_id)
        && state.conn(packet.session_id) is Handshake {
        assert(after =~= before.push(
            ActionView::Failed {
                ticket: state.conn(packet.session_id)->ticket,
                error: ConnectionErrorView::SessionIdCollided,
            },
        ));
    }
}

/// A peer who wants a session is announced to the application, at the address where it
/// listens, unless it answers a handshake of this end; then, if the number it gives is free,
/// the session is there at once.
pub proof fn a_peer_who_wants_a_session_is_announced(
    state: StateView,
    next: StateView,
    packet: views::HelloView,
    print: u128,
    addr: Address,
    now: Timestamp,
    before: Seq<ActionView>,
    after: Seq<ActionView>,
)
    requires
        inbound::handles(state, next, PacketView::Hello(packet), print, addr, now, before, after),
    ensures
        ({
            let known = state.handshakes.dom().contains(packet.handshake_id);
            let session = packet.proposed_session_id;
            let listens = addr.at_port(packet.receiving_port.0);
            &&& !known ==> next == state && after == before.push(
                ActionView::AskApp { packet: PacketView::Hello(packet), addr: listens },
            )
            &&& known && !state.has(session) ==> {
                &&& next.is_up(session)
                &&& next.conn(session).addr() == listens
                &&& next.conn(session).free()
                &&& !next.handshakes.dom().contains(packet.handshake_id)
                &&& after.len() == before.len() + 2
                &&& after[before.len() as int] == (ActionView::Connected {
                    ticket: state.handshakes[packet.handshake_id].ticket,
                    session,
                })
                &&& after.last() matches ActionView::Send { packet: reply, addr: to }
                &&& to == listens
                &&& reply matches PacketView::HandshakeAck(ack)
                &&& ack.session_id == session
                &&& ack.handshake_id == packet.handshake_id
            }
            &&& known && state.has(session) ==> {
                &&& next.connections == state.connections
                &&& after.len() > before.len()
                &&& after[before.len() as int] matches ActionView::Send { packet: reply, addr: to }
                &&& to == listens
                &&& reply matches PacketView::HandshakeRejection(rejection)
                &&& rejection.reason == HandshakeRejectionReason::IdCollision
                &&& rejection.session_id == session
            }
        }),
{
    let known = state.handshakes.dom().contains(packet.handshake_id);
    if !known {
        assert(after =~= before.push(
            ActionView::AskApp {
                packet: PacketView::Hello(packet),
                addr: addr.at_port(packet.receiving_port.0),
            },
        ));
    }
}

} // verus!
