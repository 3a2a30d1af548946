//! What the application's wishes do, at this end and at the other: asking for a stream,
//! holding it, moving in it, completing and refusing it.
use vstd::prelude::*;

use crate::api::types;
use crate::api::types::WriteableView;
use crate::error::ApiErrors;
use crate::manager::arrival_laws;
use crate::manager::connection::{ConnView, SessionStateView};
use crate::manager::endpoints;
use crate::manager::fields::{BytePosition, Options, PlaybackControlType, SessionId};
use crate::manager::identity::Address;
use crate::manager::inbound;
use crate::manager::packets;
use crate::manager::playback_laws;
use crate::manager::ranges::{ByteRange, FecConfig};
use crate::manager::received;
use crate::manager::requests;
use crate::manager::state;
use crate::manager::state::StateView;
use crate::manager::streaming::FromView;
use crate::manager::tables;
use crate::manager::types::Timestamp;
use crate::manager::views;
use crate::manager::views::PacketView;
use crate::utils::data_collection::Observation;
use crate::utils::messages::{
    ActionView, ConnectionEventView, PlaybackControl, SendTarget, StreamEventView,
    StreamMessage,
};

verus! {

/// What a session receives.
pub open spec fn receiver(state: StateView, session: SessionId) -> FromView {
    state.conn(session).stream().streaming->From_0
}

/// The message of the stream of a session.
pub open spec fn message_of(state: StateView, session: SessionId) -> StreamMessage {
    state.conn(session).stream().message
}

/// Whether two states differ at most in the message of the stream of one session.
pub open spec fn only_message_changes(
    before: StateView,
    after: StateView,
    session: SessionId,
) -> bool {
    &&& playback_laws::same_elsewhere(before, after, session)
    &&& after.has(session)
    &&& after.conn(session).flat() == before.conn(session).flat()
    &&& after.conn(session).addr() == before.conn(session).addr()
    &&& after.conn(session).id() == before.conn(session).id()
    &&& after.conn(session).stream().streaming == before.conn(session).stream().streaming
    &&& after.conn(session).stream().fec == before.conn(session).stream().fec
}

/// Whether an action tells the peer at `address` something about the session's stream.
pub open spec fn tells(
    action: ActionView,
    session: SessionId,
    address: Address,
    control: PlaybackControlType,
    position: Option<BytePosition>,
) -> bool {
    &&& action matches ActionView::Send { packet, addr }
    &&& addr == address
    &&& packet matches PacketView::PlaybackStatus(status)
    &&& status.session_id == session
    &&& status.control_type == control
    &&& status.seek_position == position
}

/// Holding a stream is noted in its message, and nowhere else, and the application is told. To
/// hold a stream that is held changes nothing, and holding one and letting it go leaves it as
/// it was.
pub proof fn holding_is_noted(state: StateView, session: SessionId, paused: bool)
    requires
        state.streams(session),
    ensures
        ({
            let step = state.pausing(session, paused);
            let message = message_of(state, session);
            let after = message_of(step.state, session);
            &&& only_message_changes(state, step.state, session)
            &&& after == (StreamMessage { paused, ..message })
            &&& message.paused == paused ==> step.state == state && step.actions.len() == 0
            &&& message.paused != paused ==> step.actions == seq![
                ActionView::Publish { session, message: after },
            ]
            &&& step.state.pausing(session, paused).state == step.state
            &&& step.state.pausing(session, paused).actions.len() == 0
            &&& message_of(step.state.pausing(session, !paused).state, session) == (
            StreamMessage { paused: !paused, ..message })
        }),
{
}

/// What the application wants of a stream is done here and told to the peer, who hears just
/// that: a wish to hold it, to go on, to go on elsewhere, to close it or to end it. A stream
/// that is held already is not held again.
pub proof fn the_peer_hears_what_is_wanted(
    state: StateView,
    peer: StateView,
    session: SessionId,
    control: PlaybackControl,
    now: Timestamp,
)
    requires
        state.is_up(session),
        peer.sends(session),
        control == PlaybackControl::Play ==> !state.streams(session) || message_of(
            state,
            session,
        ).paused,
        control == PlaybackControl::Pause ==> !state.streams(session) || !message_of(
            state,
            session,
        ).paused,
        control matches PlaybackControl::Seek(to) ==> state.receives(session) && receiver(
            state,
            session,
        ).buffer.head < to.0 <= receiver(state, session).buffer.data.len(),
    ensures
        ({
            let step = state.controlling(session, control, now);
            let last = step.actions.last();
            &&& step.actions.len() > 0
            &&& last matches ActionView::Send { packet, addr }
            &&& addr == state.conn(session).addr()
            &&& packet matches PacketView::PlaybackStatus(status)
            &&& status.session_id == session
            &&& status.timestamp == now
            &&& control == PlaybackControl::Close ==> {
                let heard = peer.controlled(status);
                &&& heard.state.has(session)
                &&& heard.state.conn(session)->Established_0.state == SessionStateView::Up
            }
            &&& control != PlaybackControl::Close ==> {
                let heard = peer.controlled(status);
                &&& heard.state == peer
                &&& heard.actions == seq![
                    ActionView::Signal { session, event: StreamEventView::Playback(control) },
                ]
            }
            &&& control == PlaybackControl::Pause && state.streams(session) ==> message_of(
                step.state,
                session,
            ).paused && step.actions.contains(ActionView::Observe(Observation::Paused { session }))
            &&& control == PlaybackControl::Play && state.streams(session) ==> !message_of(
                step.state,
                session,
            ).paused
            &&& (control == PlaybackControl::Close || control == PlaybackControl::Done)
                ==> step.state == state
        }),
{
    let step = state.controlling(session, control, now);
    assert(step.actions.last() is Send);
    if control == PlaybackControl::Pause {
        let n = state.pausing(session, true).actions.len();
        assert(step.actions[n as int] == ActionView::Observe(Observation::Paused { session }));
    }
}

/// To hold a stream that is held, or to let go on one that goes on, is not told to anyone.
pub proof fn nothing_new_is_not_told(state: StateView, session: SessionId, now: Timestamp)
    requires
        state.streams(session),
    ensures
        ({
            let again = if message_of(state, session).paused {
                PlaybackControl::Pause
            } else {
                PlaybackControl::Play
            };
            let step = state.controlling(session, again, now);
            step.state == state && step.actions.len() == 0
        }),
{
}

proof fn lemma_gap(filled: Seq<bool>, i: int)
    requires
        0 <= i <= filled.len(),
    ensures
        i <= types::first_gap(filled, i) <= filled.len(),
        forall|c: int| i <= c < types::first_gap(filled, i) ==> #[trigger] filled[c],
        types::first_gap(filled, i) < filled.len() ==> !filled[types::first_gap(filled, i)],
    decreases filled.len() - i,
{
    if i < filled.len() && filled[i] {
        lemma_gap(filled, i + 1);
    }
}

/// Going on elsewhere moves the head of a receiver forward only, to the first gap from the
/// chunk of the position that is sought, and to no byte past the end. Nothing that has
/// arrived is lost. The peer is asked to go on from there just if the head has to move.
pub proof fn seeking_moves_the_receiver_forward(
    state: StateView,
    session: SessionId,
    to: BytePosition,
    now: Timestamp,
)
    requires
        state.receives(session),
        receiver(state, session).buffer.wf(),
    ensures
        ({
            let before = receiver(state, session);
            let step = state.controlling(session, PlaybackControl::Seek(to), now);
            let after = receiver(step.state, session);
            let len = before.buffer.data.len();
            &&& step.state.receives(session)
            &&& playback_laws::same_elsewhere(state, step.state, session)
            &&& step.state.conn(session).addr() == state.conn(session).addr()
            &&& message_of(step.state, session) == message_of(state, session)
            &&& after.buffer.data == before.buffer.data
            &&& after.buffer.filled == before.buffer.filled
            &&& after.pending == before.pending
            &&& before.buffer.head < to.0 <= len ==> arrival_laws::at_first_gap(
                after.buffer,
                to.0 as int / 1384 * 1384,
            ) && step.actions.len() == 2 && tells(
                step.actions[1],
                session,
                state.conn(session).addr(),
                PlaybackControlType::Seek,
                Some(to),
            )
            &&& !(before.buffer.head < to.0 <= len) ==> after == before && step.actions.len() == 1
            &&& step.actions[0] == ActionView::Observe(Observation::Seeked { session })
        }),
{
    let buffer = receiver(state, session).buffer;
    if buffer.head < to.0 <= buffer.data.len() {
        let c = to.0 as int / 1384;
        lemma_gap(buffer.filled, c);
        let after = buffer.sought(to.0 as int);
        let gap = types::first_gap(buffer.filled, c);
        assert forall|k: int| c * 1384 / 1384 <= k && k * 1384 < after.head implies #[trigger]
            after.filled[k] by {
            assert(k < gap);
        }
    }
}

/// That the application wants a stream completed, with its holes or without, is noted in its
/// message and nowhere else, and the application is told.
pub proof fn completing_is_noted(state: StateView, session: SessionId, allow_partial: bool)
    ensures
        ({
            let step = state.completing(session, allow_partial);
            let message = message_of(state, session);
            let after = message_of(step.state, session);
            &&& state.streams(session) ==> only_message_changes(state, step.state, session)
                && after == (StreamMessage { complete: Some(allow_partial), ..message })
                && step.actions == seq![ActionView::Publish { session, message: after }]
            &&& !state.streams(session) ==> step.state == state && step.actions.len() == 0
        }),
{
}

/// A request for a stream reaches the application of the peer with the name and the coding
/// that were asked for, and the one who asks receives into the buffer that it gave.
pub proof fn requests_reach_the_application(
    state: StateView,
    peer: StateView,
    session: SessionId,
    id: Seq<u8>,
    buffer: WriteableView,
    config: FecConfig,
    now: Timestamp,
)
    requires
        state.is_free(session),
        peer.is_up(session),
    ensures
        endpoints::track_request_view(session, id, config, now) matches PacketView::TrackRequest(
            request,
        ) && request.session_id == session && inbound::track_request_actions(peer, request)
            == seq![
            ActionView::Notify { session, news: ConnectionEventView::TrackRequest(id, config) },
        ],
        ({
            let after = state.receiving(session, buffer, config);
            &&& after.receives(session)
            &&& receiver(after, session).buffer == buffer
            &&& receiver(after, session).fec_config == config
            &&& receiver(after, session).session_id == session
            &&& receiver(after, session).pending.dom().len() == 0
            &&& forall|c: u64| !receiver(after, session).pending.dom().contains(c)
            &&& receiver(after, session).max_seq is None
            &&& forall|k: u64| !after.conn(session).stream().fec.dom().contains(k)
            &&& message_of(after, session).head == 0
            &&& !message_of(after, session).paused
            &&& !message_of(after, session).closed
            &&& message_of(after, session).approved is None
            &&& message_of(after, session).complete is None
            &&& !message_of(after, session).buffer_closed
            &&& after.conn(session).addr() == state.conn(session).addr()
            &&& playback_laws::same_elsewhere(state, after, session)
        }),
{
    endpoints::request_is_understood(id, config);
    let after = state.receiving(session, buffer, config);
    assert(receiver(after, session).pending == Map::<u64, Timestamp>::empty());
}

/// Nothing is asked of the application by a request that names no coding, or on a session
/// that is not established.
pub proof fn malformed_requests_are_dropped(peer: StateView, request: views::TrackRequestView)
    requires
        request.payload.len() < 3 || !peer.is_up(request.session_id),
    ensures
        inbound::track_request_actions(peer, request).len() == 0,
{
}

/// A refused request leaves the stream as it is, but the application learns that the peer does
/// not agree.
pub proof fn a_refusal_is_noted(
    state: StateView,
    session: SessionId,
    id: Seq<u8>,
    now: Timestamp,
)
    requires
        state.streams(session),
    ensures
        endpoints::track_rejection_view(session, id, now) matches PacketView::TrackRejection(
            refusal,
        ) && refusal.session_id == session && refusal.payload == id,
        ({
            let step = state.track_rejected(session);
            let message = message_of(state, session);
            let after = message_of(step.state, session);
            &&& only_message_changes(state, step.state, session)
            &&& after == (StreamMessage { approved: Some(false), ..message })
            &&& step.actions == seq![ActionView::Publish { session, message: after }]
        }),
{
}

/// That the memory of a stream is gone is told to the application, and nothing else.
pub proof fn gone_memory_is_told(state: StateView, session: SessionId)
    ensures
        state.streams(session) ==> state.buffer_gone(session) == seq![
            ActionView::Publish {
                session,
                message: StreamMessage {
                    buffer_closed: true,
                    ..message_of(state, session)
                },
            },
        ],
        !state.streams(session) ==> state.buffer_gone(session).len() == 0,
{
}

proof fn lemma_hole_positions(filled: Seq<bool>, n: int, c: int)
    requires
        0 <= n <= filled.len(),
        n * 1384 <= u32::MAX,
    ensures
        types::hole_positions(filled, n).contains(BytePosition((c * 1384) as u32)) && 0 <= c
            * 1384 <= u32::MAX <==> 0 <= c < n && !filled[c],
        forall|i: int|
            0 <= i < types::hole_positions(filled, n).len() ==> (#[trigger] types::hole_positions(
                filled,
                n,
            )[i]).0 < n * 1384,
        forall|i: int, j: int|
            0 <= i < j < types::hole_positions(filled, n).len() ==> (
            #[trigger] types::hole_positions(filled, n)[i]).0 < (#[trigger] types::hole_positions(
                filled,
                n,
            )[j]).0,
    decreases n,
{
    let p = BytePosition((c * 1384) as u32);
    if n > 0 {
        lemma_hole_positions(filled, n - 1, c);
        let before = types::hole_positions(filled, n - 1);
        let all = types::hole_positions(filled, n);
        if !filled[n - 1] {
            assert(all == before.push(BytePosition(((n - 1) * 1384) as u32)));
            if all.contains(p) {
                let i = choose|i: int| 0 <= i < all.len() && all[i] == p;
                if i < before.len() {
                    assert(before[i] == p);
                }
            }
            if before.contains(p) {
                let i = choose|i: int| 0 <= i < before.len() && before[i] == p;
                assert(all[i] == p);
            }
            if c == n - 1 {
                assert(all[before.len() as int] == p);
            }
        }
    }
}

/// The holes that are listed of a stream are its missing chunks below the last full one, each
/// once and in order.
pub proof fn listed_holes_are_the_missing_chunks(buffer: WriteableView, c: int)
    requires
        buffer.wf(),
    ensures
        ({
            let holes = endpoints::hole_spans(
                types::hole_positions(buffer.filled, buffer.data.len() as int / 1384),
            );
            &&& (exists|i: int| 0 <= i < holes.len() && (#[trigger] holes[i]).start == c * 1384)
                <==> 0 <= c < buffer.data.len() as int / 1384 && !buffer.filled[c]
            &&& forall|i: int|
                0 <= i < holes.len() ==> (#[trigger] holes[i]).end == holes[i].start + 1384
                    && holes[i].end <= buffer.data.len()
            &&& forall|i: int, j: int|
                0 <= i < j < holes.len() ==> (#[trigger] holes[i]).start < (
                #[trigger] holes[j]).start
        }),
{
    let n = buffer.data.len() as int / 1384;
    let positions = types::hole_positions(buffer.filled, n);
    let holes = endpoints::hole_spans(positions);
    lemma_hole_positions(buffer.filled, n, c);
    lemma_hole_ends(buffer.filled, n);
    if exists|i: int| 0 <= i < holes.len() && (#[trigger] holes[i]).start == c * 1384 {
        let i = choose|i: int| 0 <= i < holes.len() && (#[trigger] holes[i]).start == c * 1384;
        assert(positions[i].0 == c * 1384);
        assert(positions.contains(BytePosition((c * 1384) as u32)));
    }
    if 0 <= c < n && !buffer.filled[c] {
        let i = choose|i: int|
            0 <= i < positions.len() && positions[i] == BytePosition((c * 1384) as u32);
        assert(holes[i].start == c * 1384);
    }
    assert forall|i: int| 0 <= i < holes.len() implies (#[trigger] holes[i]).end == holes[i].start
        + 1384 && holes[i].end <= buffer.data.len() by {
        assert(positions[i].0 + 1384 <= n * 1384);
    }
    assert forall|i: int, j: int| 0 <= i < j < holes.len() implies (#[trigger] holes[i]).start < (
    #[trigger] holes[j]).start by {
        assert(positions[i].0 < positions[j].0);
    }
}

proof fn lemma_hole_ends(filled: Seq<bool>, n: int)
    requires
        0 <= n <= filled.len(),
        n * 1384 <= u32::MAX,
    ensures
        forall|i: int|
            0 <= i < types::hole_positions(filled, n).len() ==> (#[trigger] types::hole_positions(
                filled,
                n,
            )[i]).0 + 1384 <= n * 1384,
    decreases n,
{
    if n > 0 {
        lemma_hole_ends(filled, n - 1);
        let before = types::hole_positions(filled, n - 1);
        let all = types::hole_positions(filled, n);
        assert forall|i: int| 0 <= i < all.len() implies (#[trigger] all[i]).0 + 1384 <= n * 1384 by {
            if i < before.len() {
                assert(all[i] == before[i]);
            }
        }
    }
}

/// A request for bytes reaches the one who sends, with every range that was asked for; it is
/// acknowledged if that is wanted, and otherwise changes nothing.
pub proof fn requests_for_bytes_reach_the_sender(
    state: StateView,
    next: StateView,
    packet: views::RetransmitView,
    print: u128,
    addr: Address,
    now: Timestamp,
    before: Seq<ActionView>,
    after: Seq<ActionView>,
)
    requires
        inbound::handles(
            state,
            next,
            PacketView::Retransmit(packet),
            print,
            addr,
            now,
            before,
            after,
        ),
        state.sends(packet.session_id),
    ensures
        next == state,
        after.len() > 0,
        after.last() == (ActionView::Signal {
            session: packet.session_id,
            event: StreamEventView::Retransmit(packet.payload),
        }),
        0 < packet.payload.len() <= u32::MAX ==> after.contains(
            ActionView::Observe(
                Observation::RetransmitServed {
                    session: packet.session_id,
                    count: packet.payload.len() as u32,
                },
            ),
        ),
{
    let served = state.retransmit_served(packet);
    let told = after.skip(before.len() as int);
    assert(after.last() == served.last());
    if 0 < packet.payload.len() <= u32::MAX {
        assert(served.len() == 2);
        assert(after[after.len() - 2] == served[0]);
    }
}

proof fn lemma_free_in(list: Seq<SessionId>, connections: Map<u64, ConnView>, i: int)
    requires
        0 <= i < list.len(),
        connections.dom().contains(list[i].0),
        connections[list[i].0].free(),
    ensures
        tables::first_free(list, connections) is Some,
    decreases list.len(),
{
    if i > 0 {
        assert(list.drop_first()[i - 1] == list[i]);
        lemma_free_in(list.drop_first(), connections, i - 1);
    }
}

/// A target is found whenever it can be: a session that is free is its own; an address stands
/// for one of its sessions that is free, if there is one. Otherwise the reason is given.
pub proof fn a_free_target_is_found(state: StateView, session: SessionId, address: Address)
    ensures
        ({
            let found = state.resolved(SendTarget::Session(session));
            &&& state.is_free(session) ==> found == Ok::<(SessionId, Address), ApiErrors>(
                (session, state.conn(session).addr()),
            )
            &&& !state.has(session) ==> found == Err::<(SessionId, Address), ApiErrors>(
                ApiErrors::SessionDoesNotExist,
            )
            &&& state.has(session) && !state.conn(session).free() ==> found == Err::<
                (SessionId, Address),
                ApiErrors,
            >(ApiErrors::SessionOccupied)
        }),
        ({
            let found = state.resolved(SendTarget::Address(address));
            let list = state.address_session[address];
            let known = state.address_session.dom().contains(address);
            &&& found matches Ok(pair) ==> known && list.contains(pair.0) && state.is_free(pair.0)
                && pair.1 == address
            &&& found matches Err(e) ==> e == ApiErrors::NoFreeSession
            &&& (known && exists|i: int| 0 <= i < list.len() && state.is_free(#[trigger] list[i]))
                ==> found is Ok
        }),
{
    let list = state.address_session[address];
    if state.address_session.dom().contains(address) {
        endpoints::lemma_first_free(list, state.connections);
        if exists|i: int| 0 <= i < list.len() && state.is_free(#[trigger] list[i]) {
            let i = choose|i: int| 0 <= i < list.len() && state.is_free(#[trigger] list[i]);
            lemma_free_in(list, state.connections, i);
        }
    }
}

/// What must not get lost asks for an acknowledgement: requests for a stream and for bytes,
/// refusals, and wishes of the receiver. The packets of a stream, acknowledgements and signs of
/// life do not.
pub proof fn what_must_not_get_lost_asks_for_an_acknowledgement(
    session: SessionId,
    id: Seq<u8>,
    config: FecConfig,
    control: PlaybackControlType,
    position: Option<BytePosition>,
    asked: Seq<ByteRange>,
    print: u128,
    now: Timestamp,
)
    ensures
        endpoints::track_request_view(session, id, config, now) matches PacketView::TrackRequest(p)
            && packets::wants_ack(p.opts) && p.timestamp == now,
        endpoints::track_rejection_view(session, id, now) matches PacketView::TrackRejection(p)
            && packets::wants_ack(p.opts) && p.timestamp == now,
        endpoints::control_view(session, control, position, now) matches PacketView::PlaybackStatus(
            p,
        ) && packets::wants_ack(p.opts) && p.timestamp == now && p.session_id == session
            && p.control_type == control && p.seek_position == position,
        requests::retransmit_view(session, asked, now) matches PacketView::Retransmit(p)
            && packets::wants_ack(p.opts) && p.timestamp == now && p.payload == asked
            && p.session_id == session,
        requests::done_view(session, now) matches PacketView::PlaybackStatus(p)
            && packets::wants_ack(p.opts) && p.timestamp == now,
        received::ack_view(session, print, now) matches PacketView::Ack(p) && !packets::wants_ack(
            p.opts,
        ) && p.timestamp == now,
        state::keep_alive_view(session, now) matches PacketView::KeepAlive(p)
            && !packets::wants_ack(p.opts),
{
    packets::ack_can_be_asked_for(Options(0));
    packets::no_options_want_no_ack();
}

} // verus!
