//! The state of one connection.
use vstd::prelude::*;

use crate::api::types;
use crate::api::types::{ReadableBuffer, ReadableView, WriteableBuffer};
use crate::error::{Error, FlatState};
use crate::manager::fields::{FecScheme, SessionId, MAX_PAYLOAD_LENGTH};
use crate::manager::identity::{Address, AppId};
use crate::manager::packets::DataPacket;
use crate::manager::ranges::FecConfig;
use crate::manager::session_fec::SessionFecState;
use crate::manager::stream_state;
use crate::manager::stream_state::{
    Outcome, StreamState, StreamView, Streaming, StreamingView,
};
use crate::manager::streaming::{FromView, StreamingFrom, StreamingTo, ToView};
use crate::manager::types::{ForeignTimestamp, Timestamp};
use crate::manager::views;
use crate::packet_processor::fec;
use crate::packet_processor::fec::data::Recovered;
use crate::packet_processor::fec::Fec;
use crate::utils::messages;
use crate::utils::messages::{
    Action, ActionView, PlaybackControl, StreamEvent, StreamEventView, StreamMessage,
};

verus! {

/// What a session is doing.
#[derive(Debug)]
pub enum SessionStates {
    Up,
    Down,
    Streaming(StreamState),
}

/// What a session is doing, for contracts.
#[verifier::ext_equal]
pub enum SessionStateView {
    Up,
    Down,
    Streaming(StreamView),
}

impl View for SessionStates {
    type V = SessionStateView;

    open spec fn view(&self) -> SessionStateView {
        match self {
            SessionStates::Up => SessionStateView::Up,
            SessionStates::Down => SessionStateView::Down,
            SessionStates::Streaming(s) => SessionStateView::Streaming(s@),
        }
    }
}

/// A session that both peers agreed on.
#[derive(Debug)]
pub struct EstablishedState {
    pub session_id: SessionId,
    pub last_activity: ForeignTimestamp,
    pub state: SessionStates,
    pub address: Address,
    pub app_id: AppId,
}

/// A session that both peers agreed on, for contracts.
#[verifier::ext_equal]
pub struct EstablishedView {
    pub session_id: SessionId,
    pub last_activity: u64,
    pub state: SessionStateView,
    pub address: Address,
    pub app_id: Seq<u8>,
}

impl View for EstablishedState {
    type V = EstablishedView;

    open spec fn view(&self) -> EstablishedView {
        EstablishedView {
            session_id: self.session_id,
            last_activity: self.last_activity.spec_get(),
            state: self.state@,
            address: self.address,
            app_id: self.app_id@,
        }
    }
}

/// A connection to a peer.
#[derive(Debug)]
pub enum ConnectionStates {
    /// The peer has still to confirm the session. The one who waits for that holds the
    /// ticket.
    Handshake { session_id: SessionId, ticket: u64, app_id: AppId, address: Address },
    Established(EstablishedState),
}

/// A connection to a peer, for contracts.
#[verifier::ext_equal]
pub enum ConnView {
    Handshake { session_id: SessionId, ticket: u64, app_id: Seq<u8>, address: Address },
    Established(EstablishedView),
}

impl View for ConnectionStates {
    type V = ConnView;

    open spec fn view(&self) -> ConnView {
        match self {
            ConnectionStates::Handshake { session_id, ticket, app_id, address } => {
                ConnView::Handshake {
                    session_id: *session_id,
                    ticket: *ticket,
                    app_id: app_id@,
                    address: *address,
                }
            },
            ConnectionStates::Established(e) => ConnView::Established(e@),
        }
    }
}

impl ConnView {
    /// The state, without what it holds.
    pub open spec fn flat(self) -> FlatState {
        match self {
            ConnView::Handshake { .. } => FlatState::Handshake,
            ConnView::Established(e) => match e.state {
                SessionStateView::Up => FlatState::Up,
                SessionStateView::Down => FlatState::Down,
                SessionStateView::Streaming(s) => match s.streaming {
                    StreamingView::To(_) => FlatState::StreamingTo,
                    StreamingView::From(_) => FlatState::StreamingFrom,
                },
            },
        }
    }

    /// Whether a stream can begin on the session.
    pub open spec fn free(self) -> bool {
        self.flat() == FlatState::Up || self.flat() == FlatState::Down
    }

    /// Whether the session carries a stream.
    pub open spec fn streams(self) -> bool {
        self.flat() == FlatState::StreamingTo || self.flat() == FlatState::StreamingFrom
    }

    /// The stream that the session carries.
    pub open spec fn stream(self) -> StreamView {
        self->Established_0.state->Streaming_0
    }

    /// The same connection in another state.
    pub open spec fn with_state(self, state: SessionStateView) -> ConnView {
        ConnView::Established(EstablishedView { state, ..self->Established_0 })
    }

    /// Where the peer is.
    pub open spec fn addr(self) -> Address {
        match self {
            ConnView::Handshake { address, .. } => address,
            ConnView::Established(e) => e.address,
        }
    }

    /// The same connection to a peer that moved.
    pub open spec fn at(self, new: Address) -> ConnView {
        match self {
            ConnView::Handshake { session_id, ticket, app_id, address } => ConnView::Handshake {
                session_id,
                ticket,
                app_id,
                address: new,
            },
            ConnView::Established(e) => ConnView::Established(
                EstablishedView { address: new, ..e },
            ),
        }
    }

    /// The session.
    pub open spec fn id(self) -> SessionId {
        match self {
            ConnView::Handshake { session_id, .. } => session_id,
            ConnView::Established(e) => e.session_id,
        }
    }
}

/// A stream that is received and of which nothing came.
pub open spec fn new_from(
    buffer: types::WriteableView,
    session_id: SessionId,
    fec_config: FecConfig,
) -> StreamView {
    StreamView {
        streaming: StreamingView::From(
            FromView {
                buffer,
                pending: Map::empty(),
                session_id,
                fec_config,
                max_seq: None,
            },
        ),
        message: StreamMessage::fresh(),
        fec: Map::empty(),
    }
}

/// A stream that is sent and of which nothing went out.
pub open spec fn new_to(buffer: ReadableView, fec_config: FecConfig) -> StreamView {
    StreamView {
        streaming: StreamingView::To(ToView { buffer, current_batch: 0, fec_config }),
        message: StreamMessage::fresh(),
        fec: Map::empty(),
    }
}

/// What arrived of a stream, for the application.
pub open spec fn received_view(from: FromView, session: SessionId) -> ActionView {
    ActionView::Received { session, data: from.buffer.data }
}

/// What the end of a connection hands the application: what arrived, if a stream was under
/// way.
pub open spec fn handed_back(connection: ConnView, session: SessionId) -> Seq<ActionView> {
    if connection.flat() == FlatState::StreamingFrom {
        seq![received_view(connection.stream().streaming->From_0, session)]
    } else {
        seq![]
    }
}

/// What closing a stream tells: the one who sends it, or the application what arrived, and
/// then the application that it is over.
pub open spec fn close_views(stream: StreamView, session: SessionId) -> Seq<ActionView> {
    (match stream.streaming {
        StreamingView::To(_) => seq![
            ActionView::Signal {
                session,
                event: StreamEventView::Playback(PlaybackControl::Close),
            },
        ],
        StreamingView::From(from) => seq![received_view(from, session)],
    }).push(
        ActionView::Publish {
            session,
            message: StreamMessage { closed: true, ..stream.message },
        },
    )
}

impl ConnectionStates {
    /// The invariant of the stream, if there is one.
    pub open spec fn wf(self) -> bool {
        match self {
            ConnectionStates::Established(e) => match e.state {
                SessionStates::Streaming(s) => s.wf(),
                _ => true,
            },
            _ => true,
        }
    }

    /// The state, without what it holds.
    pub fn flat(&self) -> (f: FlatState)
        ensures
            f == self@.flat(),
    {
        match self {
            ConnectionStates::Handshake { .. } => FlatState::Handshake,
            ConnectionStates::Established(e) => match &e.state {
                SessionStates::Up => FlatState::Up,
                SessionStates::Down => FlatState::Down,
                SessionStates::Streaming(s) => match &s.streaming {
                    Streaming::To(_) => FlatState::StreamingTo,
                    Streaming::From(_) => FlatState::StreamingFrom,
                },
            },
        }
    }

    /// Begins to receive a stream on a session that is free.
    pub fn streaming_from(
        &mut self,
        buffer: WriteableBuffer,
        session_id: SessionId,
        fec_config: FecConfig,
    )
        requires
            old(self)@.free(),
            buffer.wf(),
        ensures
            final(self).wf(),
            final(self)@ == old(self)@.with_state(
                SessionStateView::Streaming(new_from(buffer@, session_id, fec_config)),
            ),
    {
        let ghost before = self@;
        match self {
            ConnectionStates::Handshake { .. } => {},
            ConnectionStates::Established(established) => {
                established.state = SessionStates::Streaming(
                    StreamState {
                        streaming: Streaming::From(
                            StreamingFrom::new(buffer, session_id, fec_config),
                        ),
                        message: StreamMessage::default(),
                        fec: SessionFecState::new(),
                    },
                );
            },
        }
        assert(self@ =~= before.with_state(
            SessionStateView::Streaming(new_from(buffer@, session_id, fec_config)),
        ));
    }

    /// Begins to send a stream on a session that is free.
    pub fn stream_to(&mut self, buffer: ReadableBuffer, fec_config: FecConfig)
        requires
            old(self)@.free(),
            buffer@.wf(),
        ensures
            final(self).wf(),
            final(self)@ == old(self)@.with_state(
                SessionStateView::Streaming(new_to(buffer@, fec_config)),
            ),
    {
        let ghost before = self@;
        match self {
            ConnectionStates::Handshake { .. } => {},
            ConnectionStates::Established(established) => {
                established.state = SessionStates::Streaming(
                    StreamState {
                        streaming: Streaming::To(
                            StreamingTo { buffer, current_batch: 0, fec_config },
                        ),
                        message: StreamMessage::default(),
                        fec: SessionFecState::new(),
                    },
                );
            },
        }
        assert(self@ =~= before.with_state(
            SessionStateView::Streaming(new_to(buffer@, fec_config)),
        ));
    }

    /// Closes the stream of a session that carries one. The session is free again.
    pub fn close_stream(&mut self, session_id: SessionId, actions: &mut Vec<Action>)
        requires
            old(self)@.streams(),
        ensures
            final(self).wf(),
            final(self)@ == old(self)@.with_state(SessionStateView::Up),
            messages::action_views(final(actions)@) == messages::action_views(old(actions)@)
                + close_views(old(self)@.stream(), session_id),
    {
        let ghost views0 = messages::action_views(actions@);
        let ghost before = self@;
        match self {
            ConnectionStates::Handshake { .. } => {},
            ConnectionStates::Established(established) => {
                let mut state: SessionStates = SessionStates::Up;
                core::mem::swap(&mut established.state, &mut state);
                match state {
                    SessionStates::Streaming(stream) => {
                        let mut message: StreamMessage = stream.message;
                        message.closed = true;
                        match stream.streaming {
                            Streaming::To(_) => {
                                messages::push_action(
                                    actions,
                                    Action::Signal {
                                        session: session_id,
                                        event: StreamEvent::Playback(PlaybackControl::Close),
                                    },
                                );
                            },
                            Streaming::From(from) => {
                                messages::push_action(
                                    actions,
                                    Action::Received {
                                        session: session_id,
                                        data: from.buffer.into_vec(),
                                    },
                                );
                            },
                        }
                        messages::push_action(
                            actions,
                            Action::Publish { session: session_id, message },
                        );
                    },
                    _ => {},
                }
            },
        }
        assert(messages::action_views(actions@) =~= views0 + close_views(
            before.stream(),
            session_id,
        ));
        assert(self@ =~= before.with_state(SessionStateView::Up));
    }

    /// Ends the connection. What arrived of a stream is handed to the application.
    pub fn hand_back(self, session_id: SessionId, actions: &mut Vec<Action>)
        ensures
            messages::action_views(final(actions)@) == messages::action_views(old(actions)@)
                + handed_back(self@, session_id),
    {
        let ghost views0 = messages::action_views(actions@);
        match self {
            ConnectionStates::Established(established) => match established.state {
                SessionStates::Streaming(stream) => match stream.streaming {
                    Streaming::From(from) => {
                        messages::push_action(
                            actions,
                            Action::Received { session: session_id, data: from.buffer.into_vec() },
                        );
                    },
                    Streaming::To(_) => {},
                },
                _ => {},
            },
            ConnectionStates::Handshake { .. } => {},
        }
        assert(messages::action_views(actions@) =~= views0 + handed_back(self@, session_id));
    }

    /// Where the peer is.
    pub fn address(&self) -> (a: Address)
        ensures
            a == self@.addr(),
    {
        match self {
            ConnectionStates::Handshake { session_id: _, ticket: _, app_id: _, address } => *address,
            ConnectionStates::Established(e) => e.address,
        }
    }

    /// Takes note that the peer moved.
    pub fn update_address(&mut self, new: Address)
        ensures
            final(self)@ == old(self)@.at(new),
            old(self).wf() ==> final(self).wf(),
    {
        match self {
            ConnectionStates::Handshake { session_id: _, ticket: _, app_id: _, address } => {
                *address = new;
            },
            ConnectionStates::Established(e) => {
                e.address = new;
            },
        }
    }

    /// The session.
    pub fn session_id(&self) -> (id: SessionId)
        ensures
            id == self@.id(),
    {
        match self {
            ConnectionStates::Handshake { session_id, ticket: _, app_id: _, address: _ } => {
                *session_id
            },
            ConnectionStates::Established(e) => e.session_id,
        }
    }
}

/// Whether a data packet counts for the recovery of its batch.
pub open spec fn recoverable_info(packet: views::DataView, scheme: FecScheme) -> bool {
    packet.payload.len() <= MAX_PAYLOAD_LENGTH && fec::codable(packet.fec_info, scheme)
}

/// The complaint about something that only a session that receives can take.
pub open spec fn not_receiving(found: FlatState) -> Error {
    Error::StateMismatch { expected: FlatState::StreamingFrom, found }
}

/// What taking in a data packet does and gives: the connection and the batches before and
/// after, the result, and what is told and sent.
pub open spec fn data_taken(
    before: ConnView,
    after: ConnView,
    fec0: Fec,
    fec1: Fec,
    packet: views::DataView,
    now: Timestamp,
    r: Result<bool, Error>,
    actions: Seq<ActionView>,
) -> bool {
    if before.flat() != FlatState::StreamingFrom {
        &&& r == Err::<bool, Error>(not_receiving(before.flat()))
        &&& after == before
        &&& fec1 == fec0
        &&& actions == Seq::<ActionView>::empty()
    } else {
        let stream = before.stream();
        let from = stream.streaming->From_0;
        let scheme = from.fec_config.scheme;
        let step = stream_state::data_step(
            from,
            stream.message,
            stream.fec,
            packet,
            before.addr(),
            now,
        );
        match step.outcome {
            Outcome::Refused => {
                &&& r == Err::<bool, Error>(Error::IrrelevantError)
                &&& after == before.with_state(SessionStateView::Streaming(step.stream))
                &&& fec1 == fec0
                &&& actions == step.actions
            },
            Outcome::Done => {
                &&& r == Ok::<bool, Error>(false)
                &&& after == before.with_state(SessionStateView::Up)
                &&& fec1 == fec0
                &&& actions == step.actions + close_views(step.stream, packet.session_id)
            },
            Outcome::GoesOn => {
                &&& after == before.with_state(SessionStateView::Streaming(step.stream))
                &&& actions == step.actions
                &&& if recoverable_info(packet, scheme) {
                    r is Ok && fec0.receives(
                        fec1,
                        scheme,
                        packet.batch_id,
                        packet.session_id,
                        packet.fec_info,
                        false,
                        fec::data::fec_image(packet.byte_range_start.0, packet.payload),
                        now,
                        r->Ok_0,
                    )
                } else {
                    r == Ok::<bool, Error>(false) && fec1 == fec0
                }
            },
        }
    }
}

/// The connection after a batch was recovered, and what that tells and sends.
pub open spec fn recovery_step(
    before: ConnView,
    recovered: Recovered,
    now: Timestamp,
) -> stream_state::StreamStep {
    let stream = before.stream();
    stream_state::recovered_step(
        stream.streaming->From_0,
        stream.message,
        stream.fec,
        recovered.batch_id,
        stream_state::recovered_views(recovered.packets@),
        before.id(),
        before.addr(),
        now,
    )
}

impl ConnectionStates {
    /// Takes in a data packet. Says whether the batch of the packet can be recovered now.
    /// A packet that does not fit the stream is of no interest; one for a session that
    /// receives no stream is an error.
    pub fn received_data_packet(
        &mut self,
        packet: &DataPacket,
        fec: &mut Fec,
        now: Timestamp,
        actions: &mut Vec<Action>,
    ) -> (r: Result<bool, Error>)
        requires
            old(self).wf(),
            old(fec).wf(),
        ensures
            final(self).wf(),
            final(fec).wf(),
            messages::extends(old(actions)@, final(actions)@),
            data_taken(
                old(self)@,
                final(self)@,
                *old(fec),
                *final(fec),
                packet@,
                now,
                r,
                messages::added(old(actions)@, final(actions)@),
            ),
    {
        let ghost before = self@;
        let ghost acts0 = actions@;
        let found: FlatState = self.flat();
        let address: Address = self.address();
        if found != FlatState::StreamingFrom {
            proof {
                assert(messages::action_views(acts0) =~= messages::action_views(acts0) + seq![]);
                messages::lemma_added(acts0, actions@, seq![]);
            }
            return Err(Error::StateMismatch { expected: FlatState::StreamingFrom, found });
        }
        let mut scheme: FecScheme = FecScheme::Xor;
        let outcome: Outcome = match self {
            ConnectionStates::Handshake { .. } => Outcome::Refused,
            ConnectionStates::Established(established) => match &mut established.state {
                SessionStates::Streaming(stream) => {
                    match &stream.streaming {
                        Streaming::From(from) => {
                            scheme = from.fec_config.scheme;
                        },
                        Streaming::To(_) => {},
                    }
                    stream.take_data(packet, address, now, actions)
                },
                _ => Outcome::Refused,
            },
        };
        let ghost stream = before.stream();
        let ghost step = stream_state::data_step(
            stream.streaming->From_0,
            stream.message,
            stream.fec,
            packet@,
            before.addr(),
            now,
        );
        proof {
            messages::lemma_added(acts0, actions@, step.actions);
        }
        match outcome {
            Outcome::Refused => Err(Error::IrrelevantError),
            Outcome::Done => {
                self.close_stream(packet.session_id, actions);
                proof {
                    let told = close_views(step.stream, packet.session_id);
                    assert(messages::action_views(actions@) =~= messages::action_views(acts0) + (
                    step.actions + told));
                    messages::lemma_added(acts0, actions@, step.actions + told);
                }
                Ok(false)
            },
            Outcome::GoesOn => {
                let batch: bool = packet.fec_info.batch_size > 0 && (scheme == FecScheme::Xor
                    || packet.fec_info.recovery_count > 0);
                if packet.payload.len() <= MAX_PAYLOAD_LENGTH && batch {
                    Ok(fec.received(packet, scheme, now))
                } else {
                    Ok(false)
                }
            },
        }
    }

    /// Takes in a batch that was recovered.
    pub fn recovered_packet(
        &mut self,
        recovered: &Recovered,
        now: Timestamp,
        actions: &mut Vec<Action>,
    ) -> (r: Result<(), Error>)
        requires
            old(self).wf(),
        ensures
            final(self).wf(),
            old(self)@.flat() != FlatState::StreamingFrom ==> {
                &&& r == Err::<(), Error>(not_receiving(old(self)@.flat()))
                &&& final(self)@ == old(self)@
                &&& final(actions)@ == old(actions)@
            },
            old(self)@.flat() == FlatState::StreamingFrom ==> {
                let step = recovery_step(old(self)@, *recovered, now);
                &&& final(self)@ == old(self)@.with_state(
                    SessionStateView::Streaming(step.stream),
                )
                &&& messages::appended(old(actions)@, final(actions)@, step.actions)
                &&& r == (if step.outcome == Outcome::Refused {
                    Err::<(), Error>(Error::IrrelevantError)
                } else {
                    Ok::<(), Error>(())
                })
            },
    {
        let found: FlatState = self.flat();
        let address: Address = self.address();
        let session_id: SessionId = self.session_id();
        if found != FlatState::StreamingFrom {
            return Err(Error::StateMismatch { expected: FlatState::StreamingFrom, found });
        }
        let outcome: Outcome = match self {
            ConnectionStates::Handshake { .. } => Outcome::Refused,
            ConnectionStates::Established(established) => match &mut established.state {
                SessionStates::Streaming(stream) => stream.take_recovered(
                    recovered,
                    session_id,
                    address,
                    now,
                    actions,
                ),
                _ => Outcome::Refused,
            },
        };
        match outcome {
            Outcome::Refused => Err(Error::IrrelevantError),
            _ => Ok(()),
        }
    }
}

} // verus!
