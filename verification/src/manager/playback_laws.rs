//! What a sender does in its turns, and how the receiver's wishes change that: from where it
//! goes on, what it sends again, and when it holds.
use vstd::prelude::*;

use crate::api::handles::Direction;
use crate::api::types;
use crate::api::types::ReadableView;
use crate::manager::batches;
use crate::manager::connection;
use crate::manager::connection::SessionStateView;
use crate::manager::fields::{BytePosition, SessionId};
use crate::manager::identity::Address;
use crate::manager::ranges;
use crate::manager::ranges::{ByteRange, FecConfig};
use crate::manager::send_loop;
use crate::manager::send_loop::SendLoopView;
use crate::manager::state::StateView;
use crate::manager::stream_state;
use crate::manager::stream_state::StreamView;
use crate::manager::types::Timestamp;
use crate::manager::views::PacketView;
use crate::utils::data_collection::Observation;
use crate::utils::messages::{ActionView, PlaybackControl, StreamEventView, StreamMessage};

verus! {

/// The bytes that a session sends, and how far it has come in them.
pub open spec fn source(state: StateView, session: SessionId) -> ReadableView {
    state.conn(session).stream().source()
}

/// Whether two states differ at most in one session.
pub open spec fn same_elsewhere(before: StateView, after: StateView, session: SessionId) -> bool {
    &&& forall|id: u64|
        id != session.0 ==> (#[trigger] after.connections.dom().contains(id)
            <==> before.connections.dom().contains(id))
    &&& forall|id: u64|
        id != session.0 && #[trigger] before.connections.dom().contains(id)
            ==> after.connections[id] == before.connections[id]
    &&& after.app_id == before.app_id
    &&& after.port == before.port
    &&& after.handshakes == before.handshakes
    &&& after.ack == before.ack
    &&& after.encryption == before.encryption
    &&& after.fingerprints == before.fingerprints
    &&& after.address_session == before.address_session
    &&& after.fec == before.fec
}

/// The bytes from a position to the end of its chunk, or of the stream.
pub open spec fn chunk_from(data: Seq<u8>, at: int) -> Seq<u8> {
    data.subrange(
        at,
        if at + 1384 <= data.len() {
            at + 1384
        } else {
            data.len() as int
        },
    )
}

/// Whether an action sends the peer at `address` the bytes of `data` at a position, as packet
/// `i` of `n` of a batch.
pub open spec fn sends_chunk(
    action: ActionView,
    session: SessionId,
    address: Address,
    data: Seq<u8>,
    at: int,
    i: int,
    n: int,
) -> bool {
    &&& action matches ActionView::Send { packet, addr }
    &&& addr == address
    &&& packet matches PacketView::Data(view)
    &&& view.session_id == session
    &&& view.byte_range_start.0 as int == at
    &&& view.payload == chunk_from(data, at)
    &&& view.fec_info.batch_pos as int == i
    &&& view.fec_info.batch_size as int == n
}

/// The bytes that data packets carry, put together.
pub open spec fn carried(actions: Seq<ActionView>) -> Seq<u8>
    decreases actions.len(),
{
    if actions.len() == 0 {
        seq![]
    } else {
        carried(actions.drop_last()) + match actions.last() {
            ActionView::Send { packet: PacketView::Data(view), addr: _ } => view.payload,
            _ => seq![],
        }
    }
}

/// A wish to go on from a position moves the sender to the chunk of that position, or to the
/// last one if the stream is not that long. Its bytes, the batches and the other sessions
/// stay as they are.
pub proof fn seeking_moves_the_head(
    sender: SendLoopView,
    state: StateView,
    to: BytePosition,
)
    requires
        state.sends(sender.session_id),
        source(state, sender.session_id).wf(),
    ensures
        ({
            let session = sender.session_id;
            let event = StreamEventView::Playback(PlaybackControl::Seek(to));
            let after = send_loop::event_state(state, session, event);
            let len = source(state, session).data.len() as int;
            &&& after.sends(session)
            &&& source(after, session).data == source(state, session).data
            &&& to.0 <= len ==> source(after, session).head == to.0 as int / 1384 * 1384
            &&& to.0 > len ==> source(after, session).head == len / 1384 * 1384
            &&& after.conn(session).addr() == state.conn(session).addr()
            &&& after.conn(session).stream().message == state.conn(session).stream().message
            &&& after.conn(session).stream().fec == state.conn(session).stream().fec
            &&& after.conn(session).stream().streaming->To_0.current_batch == state.conn(
                session,
            ).stream().streaming->To_0.current_batch
            &&& same_elsewhere(state, after, session)
            &&& send_loop::event_goes_on(event)
            &&& send_loop::event_actions(state, session, event).contains(
                ActionView::Observe(Observation::Seeked { session }),
            )
        }),
{
    let session = sender.session_id;
    let event = StreamEventView::Playback(PlaybackControl::Seek(to));
    let told = send_loop::event_actions(state, session, event);
    assert(told[0] == ActionView::Observe(Observation::Seeked { session }));
}

/// The first packet that goes out after a seek carries the chunk that was sought.
pub proof fn the_turn_after_a_seek_starts_there(
    sender: SendLoopView,
    extras: Seq<usize>,
    state: StateView,
    to: BytePosition,
    now: Timestamp,
)
    requires
        state.may_send(sender.session_id),
        source(state, sender.session_id).wf(),
        to.0 < source(state, sender.session_id).data.len(),
        sender.playing,
    ensures
        ({
            let session = sender.session_id;
            let event = StreamEventView::Playback(PlaybackControl::Seek(to));
            let moved = send_loop::event_state(state, session, event);
            let next = sender.after_event(event, extras);
            let actions = next.tick_actions(moved, now);
            &&& actions.len() >= 2
            &&& actions[1] matches ActionView::Send { packet, addr }
            &&& addr == state.conn(session).addr()
            &&& packet matches PacketView::Data(view)
            &&& view.session_id == session
            &&& view.byte_range_start.0 as int == to.0 as int / 1384 * 1384
            &&& view.payload == chunk_from(
                source(state, session).data,
                to.0 as int / 1384 * 1384,
            )
        }),
{
    let session = sender.session_id;
    let event = StreamEventView::Playback(PlaybackControl::Seek(to));
    let moved = send_loop::event_state(state, session, event);
    let next = sender.after_event(event, extras);
    let stream = moved.conn(session).stream();
    assert(moved.may_send(session));
    let chunks = batches::batch_chunks(stream, extras, 28);
    assert(stream.source().pieces(28).len() > 0);
    assert(chunks.len() > 0);
    assert(chunks[0] == types::piece_at(stream.source().data, stream.source().head));
    assert(next.tick_actions(moved, now)[1] is Send);
}

/// A seek makes the chunks wait that lie between what was sent last and the position that was
/// sought, and no others.
pub proof fn seeking_keeps_what_is_passed_over(
    last_sent: BytePosition,
    to: BytePosition,
    number: usize,
)
    requires
        last_sent != to,
    ensures
        ({
            let lo = if last_sent.0 <= to.0 {
                last_sent.0 as int
            } else {
                to.0 as int
            };
            let hi = if last_sent.0 <= to.0 {
                to.0 as int
            } else {
                last_sent.0 as int
            };
            send_loop::event_adds(
                last_sent,
                StreamEventView::Playback(PlaybackControl::Seek(to)),
                number,
            ) <==> exists|b: int| lo <= b < hi && #[trigger] (b / 1384) == number as int
        }),
{
    let lo = if last_sent.0 <= to.0 {
        last_sent.0 as int
    } else {
        to.0 as int
    };
    let hi = if last_sent.0 <= to.0 {
        to.0 as int
    } else {
        last_sent.0 as int
    };
    if send_loop::event_adds(
        last_sent,
        StreamEventView::Playback(PlaybackControl::Seek(to)),
        number,
    ) {
        let b = if lo / 1384 == number {
            lo
        } else {
            number * 1384
        };
        assert(lo <= b < hi && b / 1384 == number as int);
    }
}

/// A request for ranges that begin with chunks makes every chunk wait that has a byte in one
/// of them, and no others.
pub proof fn every_chunk_asked_for_waits(
    last_sent: BytePosition,
    wanted: Seq<ByteRange>,
    number: usize,
)
    requires
        forall|k: int|
            0 <= k < wanted.len() ==> (#[trigger] wanted[k]).start.0 % 1384 == 0
                && wanted[k].start.0 + wanted[k].length <= u32::MAX,
    ensures
        send_loop::event_adds(last_sent, StreamEventView::Retransmit(wanted), number)
            <==> exists|k: int, b: int|
            0 <= k < wanted.len() && (#[trigger] wanted[k]).start.0 <= b < wanted[k].start.0
                + wanted[k].length && #[trigger] (b / 1384) == number as int,
{
    if send_loop::event_adds(last_sent, StreamEventView::Retransmit(wanted), number) {
        let k = choose|k: int|
            0 <= k < wanted.len() && send_loop::asks_for(#[trigger] wanted[k], number);
        let chunks = ranges::chunks_of(wanted[k]);
        let i = choose|i: int|
            0 <= i < chunks.len() && (#[trigger] chunks[i]).start.0 / 1384 == number;
        let b = wanted[k].start.0 + i * 1384;
        assert(wanted[k].start.0 <= b < wanted[k].start.0 + wanted[k].length);
        assert(b / 1384 == number as int);
    }
    if exists|k: int, b: int|
        0 <= k < wanted.len() && (#[trigger] wanted[k]).start.0 <= b < wanted[k].start.0
            + wanted[k].length && #[trigger] (b / 1384) == number as int {
        let (k, b) = choose|k: int, b: int|
            0 <= k < wanted.len() && (#[trigger] wanted[k]).start.0 <= b < wanted[k].start.0
                + wanted[k].length && #[trigger] (b / 1384) == number as int;
        let i = (b - wanted[k].start.0) / 1384;
        let chunks = ranges::chunks_of(wanted[k]);
        assert(0 <= i < chunks.len());
        assert(wanted[k].start.0 % 1384 == 0);
        assert(chunks[i].start.0 as int == wanted[k].start.0 + i * 1384);
        assert(chunks[i].start.0 / 1384 == number);
        assert(send_loop::asks_for(wanted[k], number));
    }
}

proof fn lemma_range_piece(data: Seq<u8>, wanted: Seq<ByteRange>, j: int) -> (i: int)
    requires
        0 <= j < wanted.len(),
        wanted[j].start.0 <= data.len(),
        wanted[j].length == 1384,
    ensures
        0 <= i < stream_state::range_pieces(data, wanted).len(),
        stream_state::range_pieces(data, wanted)[i].position == wanted[j].start.0 as int,
        stream_state::range_pieces(data, wanted)[i].payload == chunk_from(
            data,
            wanted[j].start.0 as int,
        ),
    decreases wanted.len(),
{
    let rest = stream_state::range_pieces(data, wanted.drop_last());
    if j == wanted.len() - 1 {
        rest.len() as int
    } else {
        assert(wanted.drop_last()[j] == wanted[j]);
        lemma_range_piece(data, wanted.drop_last(), j)
    }
}

/// Once everything has been sent, a turn sends the chunks that wait, as many as a batch has
/// room for, each with its bytes, and they wait no more.
pub proof fn waiting_chunks_are_sent(
    sender: SendLoopView,
    state: StateView,
    now: Timestamp,
    j: int,
) -> (i: int)
    requires
        sender.playing,
        state.may_send(sender.session_id),
        source(state, sender.session_id).wf(),
        source(state, sender.session_id).head == source(state, sender.session_id).data.len(),
        batches::chunk_numbers(sender.extras),
        0 <= j < sender.extras.len(),
        j < 28,
        sender.extras[j] * 1384 <= source(state, sender.session_id).data.len(),
    ensures
        ({
            let session = sender.session_id;
            let actions = sender.tick_actions(state, now);
            let data = source(state, session).data;
            &&& 0 <= i < actions.len()
            &&& actions[i] matches ActionView::Send { packet, addr }
            &&& addr == state.conn(session).addr()
            &&& packet matches PacketView::Data(view)
            &&& view.session_id == session
            &&& view.byte_range_start.0 as int == sender.extras[j] * 1384
            &&& view.payload == chunk_from(data, sender.extras[j] * 1384)
        }),
        sender.after_tick(state).extras == sender.extras.skip(
            if sender.extras.len() < 28 {
                sender.extras.len() as int
            } else {
                28
            },
        ),
{
    let session = sender.session_id;
    let stream = state.conn(session).stream();
    let extras = sender.extras;
    let count = batches::least(28, extras.len() as int);
    let wanted = batches::chunk_ranges(extras.take(count));
    assert(extras[j] <= 3103300);
    assert(wanted[j] == batches::chunk_range(extras[j]));
    assert(stream.source().pieces(28).len() == 0);
    let k = lemma_range_piece(stream.source().data, wanted, j);
    let actions = sender.tick_actions(state, now);
    let chunks = batches::batch_chunks(stream, extras, 28);
    assert(chunks[k].position == extras[j] * 1384);
    assert(actions[k + 1] is Send);
    k + 1
}

/// As long as there is something left of a stream, the chunks that wait go on waiting.
pub proof fn waiting_chunks_come_last(sender: SendLoopView, state: StateView)
    requires
        source(state, sender.session_id).wf(),
        source(state, sender.session_id).head < source(state, sender.session_id).data.len(),
    ensures
        sender.after_tick(state).extras == sender.extras,
{
    assert(source(state, sender.session_id).pieces(28).len() > 0);
}

proof fn lemma_carried(
    data: Seq<u8>,
    start: int,
    stop: int,
    actions: Seq<ActionView>,
    first: int,
    session: SessionId,
    address: Address,
    n: int,
)
    requires
        0 <= first <= actions.len(),
        0 <= start <= stop <= data.len(),
        carried(actions.take(first)) == Seq::<u8>::empty(),
        n == actions.len() - first,
        stop == (if start + n * 1384 <= data.len() {
            start + n * 1384
        } else {
            data.len() as int
        }),
        n > 0 ==> start + (n - 1) * 1384 < data.len(),
        forall|i: int|
            first <= i < actions.len() ==> sends_chunk(
                #[trigger] actions[i],
                session,
                address,
                data,
                start + (i - first) * 1384,
                i - first,
                n,
            ),
    ensures
        carried(actions) == data.subrange(start, stop),
{
    lemma_carried_to(data, start, actions, first, session, address, n, n);
    assert(actions.take(first + n) =~= actions);
}

proof fn lemma_carried_to(
    data: Seq<u8>,
    start: int,
    actions: Seq<ActionView>,
    first: int,
    session: SessionId,
    address: Address,
    n: int,
    k: int,
)
    requires
        0 <= first <= actions.len(),
        0 <= start <= data.len(),
        carried(actions.take(first)) == Seq::<u8>::empty(),
        n == actions.len() - first,
        n > 0 ==> start + (n - 1) * 1384 < data.len(),
        forall|i: int|
            first <= i < actions.len() ==> sends_chunk(
                #[trigger] actions[i],
                session,
                address,
                data,
                start + (i - first) * 1384,
                i - first,
                n,
            ),
        0 <= k <= n,
    ensures
        carried(actions.take(first + k)) == data.subrange(
            start,
            if start + k * 1384 <= data.len() {
                start + k * 1384
            } else {
                data.len() as int
            },
        ),
    decreases k,
{
    if k > 0 {
        lemma_carried_to(data, start, actions, first, session, address, n, k - 1);
        let whole = actions.take(first + k);
        assert(whole.drop_last() =~= actions.take(first + k - 1));
        assert(whole.last() == actions[first + k - 1]);
        let at = start + (k - 1) * 1384;
        assert(at < data.len());
        assert(sends_chunk(actions[first + k - 1], session, address, data, at, k - 1, n));
        assert(carried(whole) =~= data.subrange(
            start,
            if start + k * 1384 <= data.len() {
                start + k * 1384
            } else {
                data.len() as int
            },
        ));
    } else {
        assert(carried(actions.take(first)) =~= data.subrange(start, start));
    }
}

/// The number of chunks that a turn takes: a batch, or what is left.
pub open spec fn turn_count(buffer: ReadableView, n: int) -> int {
    let left = (buffer.data.len() - buffer.head + 1383) / 1384;
    if n <= left {
        n
    } else {
        left
    }
}

/// A turn sends the next chunks of a stream, in order and numbered, to the peer; together they
/// are the bytes from where the head was to where it is then. The message that the
/// application gets moves by the same bytes.
pub proof fn every_turn_moves_the_head_by_what_is_sent(
    sender: SendLoopView,
    state: StateView,
    now: Timestamp,
)
    requires
        sender.playing,
        state.may_send(sender.session_id),
        source(state, sender.session_id).wf(),
        source(state, sender.session_id).head < source(state, sender.session_id).data.len(),
    ensures
        ({
            let session = sender.session_id;
            let before = source(state, session);
            let next = sender.tick_state(state);
            let after = source(next, session);
            let actions = sender.tick_actions(state, now);
            let message = state.conn(session).stream().message;
            let message1 = next.conn(session).stream().message;
            let count = turn_count(before, 28);
            let sent = actions.subrange(1, actions.len() - 1);
            &&& next.sends(session)
            &&& same_elsewhere(state, next, session)
            &&& next.conn(session).addr() == state.conn(session).addr()
            &&& after.wf()
            &&& after.data == before.data
            &&& before.head < after.head
            &&& sent.len() == count
            &&& count > 0
            &&& forall|i: int|
                0 <= i < count ==> sends_chunk(
                    #[trigger] sent[i],
                    session,
                    state.conn(session).addr(),
                    before.data,
                    before.head + i * 1384,
                    i,
                    count,
                )
            &&& carried(sent) == before.data.subrange(before.head, after.head)
            &&& message.head as int == before.head ==> message1.head as int == after.head
            &&& message.head <= before.data.len() ==> message1.head as int == (if message.head
                + count * 1384 <= before.data.len() {
                message.head + count * 1384
            } else {
                before.data.len() as int
            })
            &&& message1 == (StreamMessage { head: message1.head, ..message })
            &&& actions[0] == (ActionView::Publish { session, message: message1 })
            &&& actions.last() == ActionView::Observe(
                Observation::SendTick { session, emitted: true },
            )
            &&& sender.after_tick(state).last_sent.0 as int == before.head + (count - 1) * 1384
        }),
{
    let session = sender.session_id;
    let before = source(state, session);
    let stream = state.conn(session).stream();
    let next = sender.tick_state(state);
    let after = source(next, session);
    let actions = sender.tick_actions(state, now);
    let count = turn_count(before, 28);
    let sent = actions.subrange(1, actions.len() - 1);
    let chunks = batches::batch_chunks(stream, sender.extras, 28);
    assert(before.count(28) == count);
    assert(before.pieces(28).len() > 0);
    assert(chunks == before.pieces(28));
    assert(sent.len() == count);
    assert forall|i: int| 0 <= i < count implies sends_chunk(
        #[trigger] sent[i],
        session,
        state.conn(session).addr(),
        before.data,
        before.head + i * 1384,
        i,
        count,
    ) by {
        assert(sent[i] == actions[i + 1]);
        assert(chunks[i] == types::piece_at(before.data, before.head + i * 1384));
    }
    assert(carried(sent.take(0)) =~= Seq::<u8>::empty());
    lemma_carried(
        before.data,
        before.head,
        after.head,
        sent,
        0,
        session,
        state.conn(session).addr(),
        count,
    );
    assert(same_elsewhere(state, next, session));
    assert(chunks.last() == chunks[count - 1]);
}

/// A stream after `k` turns of `n` chunks each, with the chunks that wait.
pub open spec fn after_turns(
    stream: StreamView,
    extras: Seq<usize>,
    n: int,
    k: nat,
) -> (StreamView, Seq<usize>)
    decreases k,
{
    if k == 0 {
        (stream, extras)
    } else {
        let (before, waiting) = after_turns(stream, extras, n, (k - 1) as nat);
        (
            batches::after_batch(before, waiting, n),
            batches::extras_left(before, waiting, n),
        )
    }
}

/// A stream that is sent from its beginning has come as far as its turns took it, in its
/// buffer and in the message that the application gets; once they took all of it, the message
/// says that all of it is through, and not before.
pub proof fn a_stream_is_done_once_all_of_it_was_taken(
    data: Seq<u8>,
    config: FecConfig,
    extras: Seq<usize>,
    n: int,
    k: nat,
)
    requires
        0 < n,
        data.len() <= u32::MAX,
    ensures
        ({
            let stream = connection::new_to(ReadableView { data, head: 0 }, config);
            let after = after_turns(stream, extras, n, k).0;
            &&& after.streaming is To
            &&& after.source().data == data
            &&& after.source().head == after.message.head as int
            &&& k * n * 1384 < data.len() ==> after.message.head as int == k * n * 1384
                && !after.message.done(Direction::Output, data.len() as usize)
            &&& k * n * 1384 >= data.len() ==> after.message.head as int == data.len()
                && after.message.done(Direction::Output, data.len() as usize)
        }),
    decreases k,
{
    let stream = connection::new_to(ReadableView { data, head: 0 }, config);
    if k > 0 {
        let j = (k - 1) as nat;
        a_stream_is_done_once_all_of_it_was_taken(data, config, extras, n, j);
        let (before, waiting) = after_turns(stream, extras, n, j);
        let after = after_turns(stream, extras, n, k).0;
        assert(k * n == j * n + n) by (nonlinear_arith)
            requires
                k == j + 1,
        ;
        let head = before.source().head;
        let left = types::pieces_in(data.len() - head);
        let count = before.source().count(n);
        assert(after.source().head == before.source().taken(n).head);
        assert(count * 1384 >= data.len() - head || count == n);
        assert(n >= left ==> head + count * 1384 >= data.len());
        assert(j * n * 1384 < data.len() ==> head == j * n * 1384);
        assert(k * n * 1384 == j * n * 1384 + n * 1384);
    } else {
        assert(0 * n == 0);
    }
}

/// A sender that was told to hold sends nothing and stays where it is, until it is told to go
/// on.
pub proof fn a_held_sender_sends_nothing(
    sender: SendLoopView,
    state: StateView,
    event: StreamEventView,
    extras: Seq<usize>,
    now: Timestamp,
)
    ensures
        ({
            let paused = sender.after_event(
                StreamEventView::Playback(PlaybackControl::Pause),
                extras,
            );
            let still = paused.after_event(event, extras);
            &&& !paused.playing
            &&& paused.tick_state(state) == state
            &&& paused.tick_actions(state, now) == Seq::<ActionView>::empty()
            &&& paused.after_tick(state) == paused
            &&& still.playing <==> event == StreamEventView::Playback(PlaybackControl::Play)
            &&& still.session_id == sender.session_id
            &&& still.last_sent == sender.last_sent
        }),
        send_loop::event_actions(
            state,
            sender.session_id,
            StreamEventView::Playback(PlaybackControl::Pause),
        ) == seq![ActionView::Observe(Observation::Paused { session: sender.session_id })],
        send_loop::event_state(
            state,
            sender.session_id,
            StreamEventView::Playback(PlaybackControl::Pause),
        ) == state,
        send_loop::event_state(
            state,
            sender.session_id,
            StreamEventView::Playback(PlaybackControl::Play),
        ) == state,
{
}

/// Nothing of a stream is sent that is held, closed or gone.
pub proof fn nothing_is_sent_of_a_held_stream(
    sender: SendLoopView,
    state: StateView,
    now: Timestamp,
)
    requires
        !state.sends(sender.session_id) || state.conn(sender.session_id).stream().message.paused
            || state.conn(sender.session_id).stream().message.closed,
    ensures
        sender.tick_state(state) == state,
        sender.after_tick(state) == sender,
        sender.tick_actions(state, now) == (if sender.playing {
            seq![
                ActionView::Observe(
                    Observation::SendTick { session: sender.session_id, emitted: false },
                ),
            ]
        } else {
            seq![]
        }),
{
    assert(sender.playing ==> sender.tick_actions(state, now) =~= seq![
        ActionView::Observe(
            Observation::SendTick { session: sender.session_id, emitted: false },
        ),
    ]);
}

/// Once the receiver says that it has everything, the stream is over: the session is free
/// again, the application learns that the stream is closed, and the sender stops. It also
/// stops when it is told that the stream was closed.
pub proof fn a_done_stream_frees_its_session(sender: SendLoopView, state: StateView)
    requires
        state.sends(sender.session_id),
    ensures
        ({
            let session = sender.session_id;
            let done = StreamEventView::Playback(PlaybackControl::Done);
            let after = send_loop::event_state(state, session, done);
            let told = send_loop::event_actions(state, session, done);
            let message = state.conn(session).stream().message;
            &&& after.has(session)
            &&& after.conn(session) is Established
            &&& after.conn(session)->Established_0.state == SessionStateView::Up
            &&& after.conn(session).addr() == state.conn(session).addr()
            &&& same_elsewhere(state, after, session)
            &&& told.contains(
                ActionView::Publish { session, message: StreamMessage { closed: true, ..message } },
            )
            &&& told.contains(ActionView::Observe(Observation::SessionClosed { session }))
            &&& !send_loop::event_goes_on(done)
        }),
        !send_loop::event_goes_on(StreamEventView::Playback(PlaybackControl::Close)),
        send_loop::event_state(
            state,
            sender.session_id,
            StreamEventView::Playback(PlaybackControl::Close),
        ) == state,
{
    let session = sender.session_id;
    let done = StreamEventView::Playback(PlaybackControl::Done);
    let told = send_loop::event_actions(state, session, done);
    assert(told.len() == 3);
    assert(told[1] is Publish);
    assert(told[2] == ActionView::Observe(Observation::SessionClosed { session }));
}

/// A session that begins to send stands where its buffer does, with nothing sent of it yet.
pub proof fn a_new_stream_stands_at_its_buffer(
    state: StateView,
    session: SessionId,
    buffer: ReadableView,
    config: FecConfig,
)
    requires
        state.is_free(session),
    ensures
        ({
            let after = state.sending(session, buffer, config);
            &&& after.may_send(session)
            &&& source(after, session) == buffer
            &&& after.conn(session).stream().streaming->To_0.fec_config == config
            &&& after.conn(session).stream().streaming->To_0.current_batch == 0
            &&& after.conn(session).stream().message.head == 0
            &&& after.conn(session).stream().message.approved is None
            &&& after.conn(session).stream().message.complete is None
            &&& after.conn(session).addr() == state.conn(session).addr()
            &&& after.conn(session).id() == state.conn(session).id()
            &&& same_elsewhere(state, after, session)
        }),
{
}

/// The packets of a turn belong to one batch, the one after the last; they say how large it is,
/// which one of it each is, how many recovery packets will follow, and when they were sent.
pub proof fn the_packets_of_a_turn_are_numbered(
    sender: SendLoopView,
    state: StateView,
    now: Timestamp,
    i: int,
)
    requires
        sender.playing,
        state.may_send(sender.session_id),
        source(state, sender.session_id).wf(),
        source(state, sender.session_id).head < source(state, sender.session_id).data.len(),
        0 <= i < turn_count(source(state, sender.session_id), 28),
    ensures
        ({
            let session = sender.session_id;
            let to = state.conn(session).stream().streaming->To_0;
            let next = sender.tick_state(state).conn(session).stream().streaming->To_0;
            let count = turn_count(to.buffer, 28);
            let number = if to.current_batch == u16::MAX {
                0
            } else {
                to.current_batch + 1
            };
            &&& next.current_batch == number
            &&& next.fec_config == to.fec_config
            &&& sender.tick_actions(state, now)[1 + i] matches ActionView::Send { packet, addr: _ }
            &&& packet matches PacketView::Data(view)
            &&& view.batch_id.0 == number
            &&& view.fec_info.batch_pos == i
            &&& view.fec_info.batch_size == count
            &&& view.fec_info.recovery_count as int == (if to.fec_config.recovery_count <= count {
                to.fec_config.recovery_count as int
            } else {
                count
            })
            &&& view.timestamp == now
            &&& !crate::manager::packets::wants_ack(view.opts)
        }),
{
    let session = sender.session_id;
    let before = source(state, session);
    let stream = state.conn(session).stream();
    let chunks = batches::batch_chunks(stream, sender.extras, 28);
    assert(before.count(28) == turn_count(before, 28));
    assert(before.pieces(28).len() > 0);
    assert(chunks == before.pieces(28));
    crate::manager::packets::no_options_want_no_ack();
    assert(sender.tick_actions(state, now)[1 + i] is Send);
}

} // verus!
