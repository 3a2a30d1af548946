//! The one who sends a stream.
//!
//! A sender has a turn every [`SEND_INTERVAL_MS`] milliseconds, and hears of what its
//! receiver asks for in between.
use vstd::prelude::*;

use crate::api::types::{ReadableBuffer, ReadableView};
use crate::error::FlatState;
use crate::manager::batches;
use crate::manager::batches::PACKET_COUNT_PER_BATCH;
use crate::manager::connection;
use crate::manager::connection::{ConnectionStates, SessionStateView, SessionStates};
use crate::manager::fields::{BytePosition, SessionId};
use crate::manager::ranges;
use crate::manager::ranges::{ByteRange, FecConfig};
use crate::manager::state::{ProtocolState, StateView};
use crate::manager::stream_state::{StreamView, Streaming, StreamingView};
use crate::manager::streaming::ToView;
use crate::manager::types::Timestamp;
use crate::utils::chunk_set::ChunkSet;
use crate::utils::data_collection::Observation;
use crate::utils::messages;
use crate::utils::messages::{
    Action, ActionView, PlaybackControl, StreamEvent, StreamEventView,
};

verus! {

/// Time between two turns of a sender, in milliseconds.
pub const SEND_INTERVAL_MS: u64 = 25;

/// Time between two signs of life, in milliseconds.
pub const KEEP_ALIVE_INTERVAL_MS: u64 = 500;

/// Whether `number` is that of a chunk between two positions.
pub open spec fn chunk_between(last_sent: BytePosition, to: BytePosition, number: usize) -> bool {
    let lo = batches::least(last_sent.0 as int, to.0 as int);
    let hi = if last_sent.0 <= to.0 {
        to.0 as int
    } else {
        last_sent.0 as int
    };
    lo / 1384 <= number && number * 1384 < hi
}

/// Adds the numbers of the chunks between two positions.
pub fn add_seek_hole_indices(extras: &mut ChunkSet, last_sent: BytePosition, to: BytePosition)
    requires
        old(extras).wf(),
        batches::chunk_numbers(old(extras)@),
    ensures
        final(extras).wf(),
        batches::chunk_numbers(final(extras)@),
        forall|i: usize| #[trigger]
            final(extras)@.contains(i) <==> old(extras)@.contains(i) || chunk_between(
                last_sent,
                to,
                i,
            ),
{
    let (lo, hi): (u32, u32) = if to.0 > last_sent.0 {
        (last_sent.0, to.0)
    } else {
        (to.0, last_sent.0)
    };
    let start: usize = lo as usize / 1384;
    let end: usize = hi as usize / 1384 + (if hi % 1384 == 0 {
        0usize
    } else {
        1usize
    });
    let ghost before = extras@;
    let mut i: usize = start;
    assert forall|k: usize| #[trigger] before.contains(k) implies k <= 3103300 by {
        assert(before[before.index_of(k)] <= 3103300);
    }
    while i < end
        invariant
            start <= i,
            end <= 3103301,
            i <= end || i == start,
            extras.wf(),
            forall|k: usize| #[trigger]
                extras@.contains(k) <==> before.contains(k) || start <= k < i,
            forall|k: usize| #[trigger] before.contains(k) ==> k <= 3103300,
        decreases end - i,
    {
        let ghost prev = extras@;
        extras.insert(i);
        assert forall|k: usize| #[trigger] extras@.contains(k) <==> before.contains(k) || start
            <= k < i + 1 by {
            assert(extras@.contains(k) <==> prev.contains(k) || k == i);
        }
        i += 1;
    }
    assert forall|k: int| 0 <= k < extras@.len() implies (#[trigger] extras@[k]) <= 3103300 by {
        assert(extras@.contains(extras@[k]));
    }
    assert forall|k: usize| #[trigger] extras@.contains(k) <==> before.contains(k)
        || chunk_between(last_sent, to, k) by {
        assert(start <= k < end <==> chunk_between(last_sent, to, k));
    }
}

/// Whether a range asks for bytes from the chunk with the given number: one of its
/// chunk-sized parts begins there. Ranges that go on past the last position there is ask
/// for nothing.
pub open spec fn asks_for(range: ByteRange, number: usize) -> bool {
    range.fits() && exists|i: int|
        0 <= i < ranges::chunks_of(range).len() && (#[trigger] ranges::chunks_of(
            range,
        )[i]).start.0 / 1384 == number
}

/// Whether one of the ranges asks for bytes from a chunk.
pub open spec fn any_asks_for(wanted: Seq<ByteRange>, number: usize) -> bool {
    exists|i: int| 0 <= i < wanted.len() && asks_for(#[trigger] wanted[i], number)
}

fn add_range(extras: &mut ChunkSet, range: ByteRange)
    requires
        old(extras).wf(),
        batches::chunk_numbers(old(extras)@),
    ensures
        final(extras).wf(),
        batches::chunk_numbers(final(extras)@),
        forall|i: usize| #[trigger]
            final(extras)@.contains(i) <==> old(extras)@.contains(i) || asks_for(range, i),
{
    if range.start.0 > u32::MAX - range.length as u32 {
        return;
    }
    let ghost before = extras@;
    let parts: Vec<ByteRange> = ranges::split_range_into_chunks(range);
    let mut j: usize = 0;
    while j < parts.len()
        invariant
            j <= parts@.len(),
            parts@ == ranges::chunks_of(range),
            extras.wf(),
            batches::chunk_numbers(extras@),
            forall|k: usize| #[trigger]
                extras@.contains(k) <==> before.contains(k) || exists|i: int|
                    0 <= i < j && (#[trigger] ranges::chunks_of(range)[i]).start.0 / 1384 == k,
        decreases parts.len() - j,
    {
        let ghost prev = extras@;
        let number: usize = parts[j].start.0 as usize / 1384;
        extras.insert(number);
        assert forall|k: int| 0 <= k < extras@.len() implies (#[trigger] extras@[k])
            <= 3103300 by {
            assert(extras@.contains(extras@[k]));
            if prev.contains(extras@[k]) {
                assert(prev[prev.index_of(extras@[k])] <= 3103300);
            }
        }
        assert forall|k: usize| #[trigger] extras@.contains(k) <==> before.contains(k) || exists|
            i: int,
        |
            0 <= i < j + 1 && (#[trigger] ranges::chunks_of(range)[i]).start.0 / 1384 == k by {
            assert(extras@.contains(k) <==> prev.contains(k) || k == number);
            assert(ranges::chunks_of(range)[j as int] == parts@[j as int]);
            if prev.contains(k) && !before.contains(k) {
                let i = choose|i: int|
                    0 <= i < j && (#[trigger] ranges::chunks_of(range)[i]).start.0 / 1384 == k;
                assert(ranges::chunks_of(range)[i].start.0 / 1384 == k);
            }
        }
        j += 1;
    }
}

/// Adds the numbers of the chunks that ranges ask for.
pub fn add_ranges(extras: &mut ChunkSet, wanted: &Vec<ByteRange>)
    requires
        old(extras).wf(),
        batches::chunk_numbers(old(extras)@),
    ensures
        final(extras).wf(),
        batches::chunk_numbers(final(extras)@),
        forall|i: usize| #[trigger]
            final(extras)@.contains(i) <==> old(extras)@.contains(i) || any_asks_for(wanted@, i),
{
    let ghost before = extras@;
    let mut j: usize = 0;
    while j < wanted.len()
        invariant
            j <= wanted@.len(),
            extras.wf(),
            batches::chunk_numbers(extras@),
            forall|k: usize| #[trigger]
                extras@.contains(k) <==> before.contains(k) || any_asks_for(
                    wanted@.take(j as int),
                    k,
                ),
        decreases wanted.len() - j,
    {
        let ghost prev = extras@;
        add_range(extras, wanted[j]);
        assert forall|k: usize| #[trigger] extras@.contains(k) <==> before.contains(k)
            || any_asks_for(wanted@.take(j + 1), k) by {
            let shorter = wanted@.take(j as int);
            let longer = wanted@.take(j + 1);
            assert(extras@.contains(k) <==> prev.contains(k) || asks_for(wanted@[j as int], k));
            if any_asks_for(shorter, k) {
                let i = choose|i: int| 0 <= i < shorter.len() && asks_for(#[trigger] shorter[i], k);
                assert(longer[i] == shorter[i]);
            }
            assert(longer[j as int] == wanted@[j as int]);
            if any_asks_for(longer, k) {
                let i = choose|i: int| 0 <= i < longer.len() && asks_for(#[trigger] longer[i], k);
                if i < j {
                    assert(shorter[i] == longer[i]);
                }
            }
        }
        j += 1;
    }
    assert(wanted@.take(wanted@.len() as int) =~= wanted@);
}

impl StateView {
    /// The state after the stream that a session sends moved to another position.
    pub open spec fn sought(self, session: SessionId, pos: BytePosition) -> StateView {
        if self.sends(session) {
            let stream = self.conn(session).stream();
            let to = stream.streaming->To_0;
            self.with_conn(
                session,
                self.conn(session).with_state(
                    SessionStateView::Streaming(
                        StreamView {
                            streaming: StreamingView::To(
                                ToView { buffer: to.buffer.sought(pos.0 as int), ..to },
                            ),
                            ..stream
                        },
                    ),
                ),
            )
        } else {
            self
        }
    }

    /// The state after a session began to send.
    pub open spec fn sending(
        self,
        session: SessionId,
        buffer: ReadableView,
        fec_config: FecConfig,
    ) -> StateView {
        self.with_conn(
            session,
            self.conn(session).with_state(
                SessionStateView::Streaming(connection::new_to(buffer, fec_config)),
            ),
        )
    }

    /// Whether a stream can begin on a session.
    pub open spec fn is_free(self, session: SessionId) -> bool {
        self.has(session) && self.conn(session).free()
    }
}

impl ProtocolState {
    /// Moves the stream that a session sends to another position.
    pub fn seek_action(&mut self, session_id: SessionId, pos: BytePosition)
        requires
            old(self).wf(),
        ensures
            final(self).wf(),
            final(self)@ == old(self)@.sought(session_id, pos),
    {
        let ghost before = self@;
        match self.connections.remove(session_id.0) {
            Some(mut connection) => {
                match &mut connection {
                    ConnectionStates::Handshake { .. } => {},
                    ConnectionStates::Established(established) => match &mut established.state {
                        SessionStates::Streaming(stream) => match &mut stream.streaming {
                            Streaming::To(to) => {
                                let _ = to.buffer.seek(pos);
                            },
                            Streaming::From(_) => {},
                        },
                        _ => {},
                    },
                }
                self.connections.insert(session_id.0, connection);
            },
            None => {},
        }
        assert(self@ =~= before.sought(session_id, pos));
    }
}

/// The one who sends a stream.
#[derive(Debug)]
pub struct SendLoop {
    pub session_id: SessionId,
    pub playing: bool,
    /// The chunks that were asked for again or passed over.
    pub extras: ChunkSet,
    pub last_sent: BytePosition,
}

/// The one who sends a stream, for contracts.
#[verifier::ext_equal]
pub struct SendLoopView {
    pub session_id: SessionId,
    pub playing: bool,
    pub extras: Seq<usize>,
    pub last_sent: BytePosition,
}

impl View for SendLoop {
    type V = SendLoopView;

    open spec fn view(&self) -> SendLoopView {
        SendLoopView {
            session_id: self.session_id,
            playing: self.playing,
            extras: self.extras@,
            last_sent: self.last_sent,
        }
    }
}

/// What an event tells the application, and whether the sender goes on.
pub open spec fn event_actions(
    state: StateView,
    session: SessionId,
    event: StreamEventView,
) -> Seq<ActionView> {
    match event {
        StreamEventView::Playback(PlaybackControl::Pause) => seq![
            ActionView::Observe(Observation::Paused { session }),
        ],
        StreamEventView::Playback(PlaybackControl::Seek(_)) => seq![
            ActionView::Observe(Observation::Seeked { session }),
        ],
        StreamEventView::Playback(PlaybackControl::Done) => state.stream_end(session),
        _ => seq![],
    }
}

/// The state after an event.
pub open spec fn event_state(
    state: StateView,
    session: SessionId,
    event: StreamEventView,
) -> StateView {
    match event {
        StreamEventView::Playback(PlaybackControl::Seek(to)) => state.sought(session, to),
        StreamEventView::Playback(PlaybackControl::Done) => state.stream_closed(session),
        _ => state,
    }
}

/// Whether an event adds a chunk to those that wait.
pub open spec fn event_adds(
    last_sent: BytePosition,
    event: StreamEventView,
    number: usize,
) -> bool {
    match event {
        StreamEventView::Playback(PlaybackControl::Seek(to)) => chunk_between(
            last_sent,
            to,
            number,
        ),
        StreamEventView::Retransmit(wanted) => any_asks_for(wanted, number),
        _ => false,
    }
}

/// Whether the sender goes on after an event.
pub open spec fn event_goes_on(event: StreamEventView) -> bool {
    match event {
        StreamEventView::Playback(PlaybackControl::Done) => false,
        StreamEventView::Playback(PlaybackControl::Close) => false,
        _ => true,
    }
}

impl SendLoopView {
    /// The sender after an event, the chunks that wait being `extras` then.
    pub open spec fn after_event(
        self,
        event: StreamEventView,
        extras: Seq<usize>,
    ) -> SendLoopView {
        SendLoopView {
            playing: match event {
                StreamEventView::Playback(PlaybackControl::Pause) => false,
                StreamEventView::Playback(PlaybackControl::Play) => true,
                _ => self.playing,
            },
            extras,
            ..self
        }
    }

    /// The sender after its turn.
    pub open spec fn after_tick(self, state: StateView) -> SendLoopView {
        let n = PACKET_COUNT_PER_BATCH as int;
        let chunks = state.turn_chunks(self.session_id, self.extras, n);
        if !self.playing || !state.may_send(self.session_id) {
            self
        } else {
            SendLoopView {
                extras: batches::extras_left(
                    state.conn(self.session_id).stream(),
                    self.extras,
                    n,
                ),
                last_sent: if chunks.len() > 0 {
                    BytePosition(chunks.last().position as u32)
                } else {
                    self.last_sent
                },
                ..self
            }
        }
    }

    /// The state after the sender's turn.
    pub open spec fn tick_state(self, state: StateView) -> StateView {
        if self.playing {
            state.after_turn(self.session_id, self.extras, PACKET_COUNT_PER_BATCH as int)
        } else {
            state
        }
    }

    /// What the sender does in its turn.
    pub open spec fn tick_actions(self, state: StateView, now: Timestamp) -> Seq<ActionView> {
        let n = PACKET_COUNT_PER_BATCH as int;
        if self.playing {
            state.turn_actions(self.session_id, self.extras, n, now).push(
                ActionView::Observe(
                    Observation::SendTick {
                        session: self.session_id,
                        emitted: state.may_send(self.session_id) && state.turn_chunks(
                            self.session_id,
                            self.extras,
                            n,
                        ).len() > 0,
                    },
                ),
            )
        } else {
            seq![]
        }
    }
}

impl SendLoop {
    /// The invariant of the chunks that wait.
    pub open spec fn wf(self) -> bool {
        self.extras.wf() && batches::chunk_numbers(self.extras@)
    }

    /// Begins to send `buffer` on a session that is free, and takes note of that.
    pub fn start(
        state: &mut ProtocolState,
        session_id: SessionId,
        buffer: ReadableBuffer,
        fec_config: FecConfig,
        actions: &mut Vec<Action>,
    ) -> (r: Option<Self>)
        requires
            old(state).wf(),
            buffer@.wf(),
        ensures
            final(state).wf(),
            r is Some <==> old(state)@.is_free(session_id),
            match r {
                Some(sender) => {
                    &&& sender.wf()
                    &&& sender@ == (SendLoopView {
                        session_id,
                        playing: true,
                        extras: seq![],
                        last_sent: BytePosition(0),
                    })
                    &&& final(state)@ == old(state)@.sending(session_id, buffer@, fec_config)
                    &&& messages::appended(
                        old(actions)@,
                        final(actions)@,
                        seq![
                            ActionView::Opened {
                                session: session_id,
                                remote: old(state)@.conn(session_id).addr(),
                                fec_config,
                            },
                        ],
                    )
                },
                None => final(state)@ == old(state)@ && final(actions)@ == old(actions)@,
            },
    {
        let ghost before = state@;
        let ghost acts0 = actions@;
        let mut connection: ConnectionStates = match state.connections.remove(session_id.0) {
            Some(connection) => connection,
            None => {
                assert(state@ =~= before);
                return None;
            },
        };
        let remote = connection.address();
        let flat: FlatState = connection.flat();
        if flat != FlatState::Up && flat != FlatState::Down {
            state.connections.insert(session_id.0, connection);
            assert(state@ =~= before);
            return None;
        }
        let ghost data = buffer@;
        connection.stream_to(buffer, fec_config);
        state.connections.insert(session_id.0, connection);
        messages::push_action(
            actions,
            Action::Opened { session: session_id, remote, fec_config },
        );
        assert(state@ =~= before.sending(session_id, data, fec_config));
        assert(messages::action_views(actions@) =~= messages::action_views(acts0) + seq![
            ActionView::Opened { session: session_id, remote, fec_config },
        ]);
        Some(
            SendLoop {
                session_id,
                playing: true,
                extras: ChunkSet::new(),
                last_sent: BytePosition(0),
            },
        )
    }

    /// Hears of an event. Says whether there is more to send.
    pub fn on_event(
        &mut self,
        state: &mut ProtocolState,
        event: StreamEvent,
        actions: &mut Vec<Action>,
    ) -> (goes_on: bool)
        requires
            old(self).wf(),
            old(state).wf(),
        ensures
            final(self).wf(),
            final(state).wf(),
            goes_on <==> event@ != StreamEventView::Playback(PlaybackControl::Done) && event@
                != StreamEventView::Playback(PlaybackControl::Close),
            final(self)@ == (SendLoopView {
                playing: if event@ == StreamEventView::Playback(PlaybackControl::Pause) {
                    false
                } else if event@ == StreamEventView::Playback(PlaybackControl::Play) {
                    true
                } else {
                    old(self)@.playing
                },
                extras: final(self)@.extras,
                ..old(self)@
            }),
            forall|i: usize| #[trigger]
                final(self)@.extras.contains(i) <==> old(self)@.extras.contains(i) || event_adds(
                    old(self)@.last_sent,
                    event@,
                    i,
                ),
            goes_on == event_goes_on(event@),
            final(self)@ == old(self)@.after_event(event@, final(self)@.extras),
            final(state)@ == event_state(old(state)@, old(self)@.session_id, event@),
            messages::appended(
                old(actions)@,
                final(actions)@,
                event_actions(old(state)@, old(self)@.session_id, event@),
            ),
    {
        let ghost acts0 = actions@;
        let ghost state0 = state@;
        let ghost event_view = event@;
        let goes_on: bool = match event {
            StreamEvent::Playback(control) => match control {
                PlaybackControl::Pause => {
                    self.playing = false;
                    messages::push_action(
                        actions,
                        Action::Observe(Observation::Paused { session: self.session_id }),
                    );
                    true
                },
                PlaybackControl::Play => {
                    self.playing = true;
                    true
                },
                PlaybackControl::Seek(to) => {
                    state.seek_action(self.session_id, to);
                    add_seek_hole_indices(&mut self.extras, self.last_sent, to);
                    messages::push_action(
                        actions,
                        Action::Observe(Observation::Seeked { session: self.session_id }),
                    );
                    true
                },
                PlaybackControl::Done => {
                    state.close_stream(self.session_id, actions);
                    false
                },
                PlaybackControl::Close => false,
            },
            StreamEvent::Retransmit(wanted) => {
                add_ranges(&mut self.extras, &wanted);
                true
            },
        };
        assert(messages::action_views(actions@) =~= messages::action_views(acts0)
            + event_actions(state0, self.session_id, event_view));
        goes_on
    }

    /// Has a turn: the next batch goes out, unless the stream is held.
    pub fn on_tick(&mut self, state: &mut ProtocolState, now: Timestamp, actions: &mut Vec<Action>)
        requires
            old(self).wf(),
            old(state).wf(),
        ensures
            final(self).wf(),
            final(state).wf(),
            final(self)@ == old(self)@.after_tick(old(state)@),
            final(state)@ == old(self)@.tick_state(old(state)@),
            messages::appended(
                old(actions)@,
                final(actions)@,
                old(self)@.tick_actions(old(state)@, now),
            ),
            !old(self)@.playing ==> final(self)@ == old(self)@ && final(state)@ == old(state)@
                && final(actions)@ == old(actions)@,
            old(self)@.playing ==> {
                let session = old(self)@.session_id;
                let extras = old(self)@.extras;
                let n = PACKET_COUNT_PER_BATCH as int;
                let sends = old(state)@.may_send(session);
                let chunks = old(state)@.turn_chunks(session, extras, n);
                &&& final(self)@ == (SendLoopView {
                    extras: if sends {
                        batches::extras_left(old(state)@.conn(session).stream(), extras, n)
                    } else {
                        extras
                    },
                    last_sent: if sends && chunks.len() > 0 {
                        BytePosition(chunks.last().position as u32)
                    } else {
                        old(self)@.last_sent
                    },
                    ..old(self)@
                })
                &&& final(state)@ == old(state)@.after_turn(session, extras, n)
                &&& messages::appended(
                    old(actions)@,
                    final(actions)@,
                    old(state)@.turn_actions(session, extras, n, now).push(
                        ActionView::Observe(
                            Observation::SendTick { session, emitted: sends && chunks.len() > 0 },
                        ),
                    ),
                )
            },
    {
        if !self.playing {
            assert(messages::action_views(actions@) =~= messages::action_views(old(actions)@)
                + old(self)@.tick_actions(old(state)@, now));
            return;
        }
        let ghost acts0 = actions@;
        let result: Option<BytePosition> = state.send_stream_action(
            self.session_id,
            PACKET_COUNT_PER_BATCH,
            &mut self.extras,
            now,
            actions,
        );
        let ghost acts1 = actions@;
        messages::push_action(
            actions,
            Action::Observe(
                Observation::SendTick { session: self.session_id, emitted: result.is_some() },
            ),
        );
        match result {
            Some(last) => {
                self.last_sent = last;
            },
            None => {},
        }
        assert(messages::action_views(actions@) =~= messages::action_views(acts0) + (
        messages::action_views(acts1).skip(messages::action_views(acts0).len() as int)).push(
            ActionView::Observe(
                Observation::SendTick { session: self.session_id, emitted: result.is_some() },
            ),
        ));
        assert(messages::action_views(acts1).skip(messages::action_views(acts0).len() as int)
            =~= old(state)@.turn_actions(
            old(self)@.session_id,
            old(self)@.extras,
            PACKET_COUNT_PER_BATCH as int,
            now,
        ));
    }
}

} // verus!
