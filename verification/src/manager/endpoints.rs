//! What the application asks for.
use vstd::prelude::*;

use crate::api::types;
use crate::api::types::{ReadableBuffer, WriteableBuffer, WriteableView};
use crate::error::{ApiErrors, Error, FlatState, PacketProcessingError};
use crate::manager::connection;
use crate::manager::connection::{
    ConnView, ConnectionStates, SessionStateView, SessionStates,
};
use crate::manager::fields::{
    BytePosition, ControlType, Options, PacketType, PlaybackControlType, SessionControlType,
    SessionId, Version, CURRENT_VERSION, MAX_PAYLOAD_LENGTH,
};
use crate::manager::identity::{Address, Reserved};
use crate::manager::images::{CloseSessionPacket, TrackRejectionPacket, TrackRequestPacket};
use crate::manager::packets;
use crate::manager::packets::{Packet, PlaybackStatusPacket};
use crate::manager::ranges::FecConfig;
use crate::manager::received;
use crate::manager::send_loop::{SendLoop, SendLoopView};
use crate::manager::session_fec::Span;
use crate::manager::state;
use crate::manager::state::{ProtocolState, StateStep, StateView};
use crate::manager::stream_state::{StreamView, Streaming, StreamingView};
use crate::manager::streaming::FromView;
use crate::manager::tables;
use crate::manager::types::Timestamp;
use crate::manager::views;
use crate::packet_processor::outbound;
use crate::packet_processor::types as processed;
use crate::packet_processor::types::ProcessedPacket;
use crate::utils::data_collection::Observation;
use crate::utils::messages;
use crate::utils::messages::{Action, ActionView, PlaybackControl, SendTarget, StreamMessage};
use crate::utils::Flags;

verus! {

/// How long the end of a session is put off, in milliseconds, so that what was sent before
/// arrives before it.
pub const CLOSE_SESSION_DELAY_MS: u64 = 25;

/// How long a request waits for a stream that is just being closed, in milliseconds.
pub const TRACK_RETRY_DELAY_MS: u64 = 100;

/// The longest name of a stream that a request can hold.
pub const MAX_TRACK_ID: usize = 1381;

/// The packet that closes a session.
pub open spec fn close_session_packet(session: SessionId, now: Timestamp) -> Packet {
    Packet::CloseSessionPacket(
        Box::new(
            CloseSessionPacket {
                version: Version(CURRENT_VERSION),
                opts: Options(0),
                packet_type: PacketType::Session,
                control_type: ControlType::Session(SessionControlType::CloseSession),
                reserved: Reserved,
                session_id: session,
                timestamp: now,
            },
        ),
    )
}

/// The packet of a playback control.
pub open spec fn control_view(
    session: SessionId,
    control: PlaybackControlType,
    position: Option<BytePosition>,
    now: Timestamp,
) -> views::PacketView {
    views::PacketView::PlaybackStatus(
        PlaybackStatusPacket::of(Options(0), session, control, position, now),
    )
}

/// What a request for a stream says: how it is to be coded, and its name.
pub open spec fn request_payload(id: Seq<u8>, config: FecConfig) -> Seq<u8> {
    seq![config.scheme.code(), config.recovery_count, config.batch_size] + id
}

/// The packet that asks for a stream.
pub open spec fn track_request_view(
    session: SessionId,
    id: Seq<u8>,
    config: FecConfig,
    now: Timestamp,
) -> views::PacketView {
    views::PacketView::TrackRequest(
        views::TrackRequestView {
            version: Version(CURRENT_VERSION),
            opts: packets::with_ack(Options(0)),
            packet_type: PacketType::Session,
            control_type: ControlType::Session(SessionControlType::TrackRequest),
            reserved: Reserved,
            session_id: session,
            timestamp: now,
            payload: request_payload(id, config),
        },
    )
}

/// The packet that refuses a stream.
pub open spec fn track_rejection_view(
    session: SessionId,
    id: Seq<u8>,
    now: Timestamp,
) -> views::PacketView {
    views::PacketView::TrackRejection(
        views::TrackRejectionView {
            version: Version(CURRENT_VERSION),
            opts: packets::with_ack(Options(0)),
            packet_type: PacketType::Session,
            control_type: ControlType::Session(SessionControlType::TrackRejection),
            reserved: Reserved,
            session_id: session,
            timestamp: now,
            payload: id,
        },
    )
}

/// What one peer writes into a request for a stream, the other reads out of it.
pub proof fn request_is_understood(id: Seq<u8>, config: FecConfig)
    ensures
        received::asked_config(request_payload(id, config)) == Some(config),
        request_payload(id, config).skip(3) == id,
{
    assert(request_payload(id, config).skip(3) =~= id);
}

impl StateView {
    /// The session that a target stands for, and where its peer is.
    pub open spec fn resolved(self, target: SendTarget) -> Result<(SessionId, Address), ApiErrors> {
        match target {
            SendTarget::Session(session) => if !self.has(session) {
                Err(ApiErrors::SessionDoesNotExist)
            } else if self.conn(session).free() {
                Ok((session, self.conn(session).addr()))
            } else {
                Err(ApiErrors::SessionOccupied)
            },
            SendTarget::Address(address) => if self.address_session.dom().contains(address) {
                match tables::first_free(self.address_session[address], self.connections) {
                    Some(session) => Ok((session, address)),
                    None => Err(ApiErrors::NoFreeSession),
                }
            } else {
                Err(ApiErrors::NoFreeSession)
            },
        }
    }

    /// The state after a session began to receive.
    pub open spec fn receiving(
        self,
        session: SessionId,
        buffer: WriteableView,
        fec_config: FecConfig,
    ) -> StateView {
        self.with_conn(
            session,
            self.conn(session).with_state(
                SessionStateView::Streaming(connection::new_from(buffer, session, fec_config)),
            ),
        )
    }

    /// Whether the stream of a session is held, or not, as asked for.
    pub open spec fn already(self, session: SessionId, paused: bool) -> bool {
        self.streams(session) && self.message(session).paused == paused
    }

    /// The state after the stream of a session was held, or not.
    pub open spec fn pausing(self, session: SessionId, paused: bool) -> StateStep {
        if self.streams(session) && self.message(session).paused != paused {
            let message = StreamMessage { paused, ..self.message(session) };
            StateStep {
                state: self.with_message(session, message),
                actions: seq![ActionView::Publish { session, message }],
            }
        } else {
            StateStep { state: self, actions: seq![] }
        }
    }

    /// The state after the head of the stream that a session receives moved.
    pub open spec fn head_sought(self, session: SessionId, pos: BytePosition) -> StateView {
        if self.receives(session) {
            let stream = self.conn(session).stream();
            let from = stream.streaming->From_0;
            self.with_conn(
                session,
                self.conn(session).with_state(
                    SessionStateView::Streaming(
                        StreamView {
                            streaming: StreamingView::From(
                                FromView { buffer: from.buffer.sought(pos.0 as int), ..from },
                            ),
                            ..stream
                        },
                    ),
                ),
            )
        } else {
            self
        }
    }

    /// Whether the head of the stream that a session receives moves forward to `pos`.
    pub open spec fn moves_forward(self, session: SessionId, pos: BytePosition) -> bool {
        self.receives(session) && {
            let buffer = self.conn(session).stream().streaming->From_0.buffer;
            buffer.head < pos.0 <= buffer.data.len()
        }
    }

    /// The control packet that goes to the peer of a session.
    pub open spec fn control_send(
        self,
        session: SessionId,
        control: PlaybackControlType,
        position: Option<BytePosition>,
        now: Timestamp,
    ) -> ActionView {
        ActionView::Send {
            packet: control_view(session, control, position, now),
            addr: self.conn(session).addr(),
        }
    }

    /// The state after the application did something to the stream of a session, and what
    /// is told and sent.
    pub open spec fn controlling(
        self,
        session: SessionId,
        control: PlaybackControl,
        now: Timestamp,
    ) -> StateStep {
        match control {
            PlaybackControl::Play => if self.already(session, false) {
                StateStep { state: self, actions: seq![] }
            } else {
                let step = self.pausing(session, false);
                StateStep {
                    actions: step.actions.push(
                        self.control_send(session, PlaybackControlType::Play, None, now),
                    ),
                    ..step
                }
            },
            PlaybackControl::Pause => if self.already(session, true) {
                StateStep { state: self, actions: seq![] }
            } else {
                let step = self.pausing(session, true);
                StateStep {
                    actions: step.actions.push(
                        ActionView::Observe(Observation::Paused { session }),
                    ).push(self.control_send(session, PlaybackControlType::Pause, None, now)),
                    ..step
                }
            },
            PlaybackControl::Close => StateStep {
                state: self,
                actions: seq![self.control_send(session, PlaybackControlType::Stop, None, now)],
            },
            PlaybackControl::Done => StateStep {
                state: self,
                actions: seq![self.control_send(session, PlaybackControlType::Done, None, now)],
            },
            PlaybackControl::Seek(pos) => StateStep {
                state: self.head_sought(session, pos),
                actions: (if self.moves_forward(session, pos) {
                    seq![
                        ActionView::Observe(Observation::Seeked { session }),
                        self.control_send(session, PlaybackControlType::Seek, Some(pos), now),
                    ]
                } else {
                    seq![ActionView::Observe(Observation::Seeked { session })]
                }),
            },
        }
    }

    /// The state after the application asked for a stream to be completed.
    pub open spec fn completing(self, session: SessionId, allow_partial: bool) -> StateStep {
        if self.streams(session) {
            let message = StreamMessage {
                complete: Some(allow_partial),
                ..self.message(session)
            };
            StateStep {
                state: self.with_message(session, message),
                actions: seq![ActionView::Publish { session, message }],
            }
        } else {
            StateStep { state: self, actions: seq![] }
        }
    }
}

/// A session that can carry a stream is one that does not.
pub proof fn lemma_first_free(list: Seq<SessionId>, connections: Map<u64, ConnView>)
    ensures
        tables::first_free(list, connections) matches Some(session) ==> {
            &&& list.contains(session)
            &&& connections.dom().contains(session.0)
            &&& connections[session.0].free()
        },
    decreases list.len(),
{
    if list.len() > 0 {
        lemma_first_free(list.drop_first(), connections);
        assert(list.first() == list[0]);
        if let Some(session) = tables::first_free(list.drop_first(), connections) {
            let rest = list.drop_first();
            let i = rest.index_of(session);
            assert(rest[i] == session);
            assert(list[i + 1] == session);
        }
    }
}

/// What a target stands for can carry a stream.
pub proof fn target_is_free(state: StateView, target: SendTarget)
    ensures
        state.resolved(target) matches Ok(found) ==> state.is_free(found.0),
{
    if let SendTarget::Address(address) = target {
        if state.address_session.dom().contains(address) {
            lemma_first_free(state.address_session[address], state.connections);
        }
    }
}

/// Whether a request that failed is worth another attempt, after which delay in
/// milliseconds: a stream that is being closed leaves its session soon.
pub fn track_retry(error: ApiErrors, attempts: u32) -> (delay: Option<u64>)
    ensures
        delay == (if error is SessionOccupied && attempts == 1 {
            Some(TRACK_RETRY_DELAY_MS)
        } else {
            None
        }),
{
    match error {
        ApiErrors::SessionOccupied => if attempts == 1 {
            Some(TRACK_RETRY_DELAY_MS)
        } else {
            None
        },
        _ => None,
    }
}

impl ProtocolState {
    /// The session that a target stands for, and where its peer is.
    pub fn resolve_target(&self, target: SendTarget) -> (r: Result<
        (SessionId, Address),
        ApiErrors,
    >)
        requires
            self.wf(),
        ensures
            r == self@.resolved(target),
    {
        match target {
            SendTarget::Session(session) => match self.connections.get(session.0) {
                None => Err(ApiErrors::SessionDoesNotExist),
                Some(connection) => {
                    let flat: FlatState = connection.flat();
                    if flat == FlatState::Up || flat == FlatState::Down {
                        Ok((session, connection.address()))
                    } else {
                        Err(ApiErrors::SessionOccupied)
                    }
                },
            },
            SendTarget::Address(address) => match self.address_session.free_session(
                address,
                &self.connections,
            ) {
                Some(session) => Ok((session, address)),
                None => Err(ApiErrors::NoFreeSession),
            },
        }
    }

    /// Begins to send `buffer` to a target. Fails if no session of the target is free.
    pub fn send_data(
        &mut self,
        target: SendTarget,
        buffer: ReadableBuffer,
        fec_config: FecConfig,
        actions: &mut Vec<Action>,
    ) -> (r: Result<SendLoop, ApiErrors>)
        requires
            old(self).wf(),
            buffer@.wf(),
        ensures
            final(self).wf(),
            match old(self)@.resolved(target) {
                Err(e) => {
                    &&& r == Err::<SendLoop, ApiErrors>(e)
                    &&& final(self)@ == old(self)@
                    &&& final(actions)@ == old(actions)@
                },
                Ok((session, _)) => {
                    &&& r matches Ok(sender) && sender.wf() && sender@ == (SendLoopView {
                        session_id: session,
                        playing: true,
                        extras: seq![],
                        last_sent: BytePosition(0),
                    })
                    &&& final(self)@ == old(self)@.sending(session, buffer@, fec_config)
                    &&& messages::appended(
                        old(actions)@,
                        final(actions)@,
                        seq![
                            ActionView::Opened {
                                session,
                                remote: old(self)@.conn(session).addr(),
                                fec_config,
                            },
                        ],
                    )
                },
            },
    {
        proof {
            target_is_free(self@, target);
        }
        match self.resolve_target(target) {
            Err(e) => Err(e),
            Ok((session, _)) => match SendLoop::start(self, session, buffer, fec_config, actions) {
                Some(sender) => Ok(sender),
                None => Err(ApiErrors::SessionOccupied),
            },
        }
    }

    /// Asks the peer of a target for the stream with the given name, to be received into
    /// `buffer` and coded as given. Fails if no session of the target is free.
    pub fn request_track(
        &mut self,
        target: SendTarget,
        id: &Vec<u8>,
        buffer: WriteableBuffer,
        fec_config: FecConfig,
        now: Timestamp,
        actions: &mut Vec<Action>,
    ) -> (r: Result<SessionId, ApiErrors>)
        requires
            old(self).wf(),
            buffer.wf(),
            id@.len() <= MAX_TRACK_ID,
        ensures
            final(self).wf(),
            match old(self)@.resolved(target) {
                Err(e) => {
                    &&& r == Err::<SessionId, ApiErrors>(e)
                    &&& final(self)@ == old(self)@
                    &&& final(actions)@ == old(actions)@
                },
                Ok((session, addr)) => {
                    &&& r == Ok::<SessionId, ApiErrors>(session)
                    &&& final(self)@ == old(self)@.receiving(session, buffer@, fec_config)
                    &&& messages::appended(
                        old(actions)@,
                        final(actions)@,
                        seq![
                            ActionView::Opened { session, remote: addr, fec_config },
                            ActionView::Send {
                                packet: track_request_view(session, id@, fec_config, now),
                                addr,
                            },
                        ],
                    )
                },
            },
    {
        let ghost before = self@;
        let ghost acts0 = actions@;
        let ghost data = buffer@;
        proof {
            target_is_free(self@, target);
        }
        let (session, addr): (SessionId, Address) = match self.resolve_target(target) {
            Err(e) => {
                return Err(e);
            },
            Ok(found) => found,
        };
        match self.connections.remove(session.0) {
            Some(mut connection) => {
                connection.streaming_from(buffer, session, fec_config);
                self.connections.insert(session.0, connection);
            },
            None => {},
        }
        messages::push_action(actions, Action::Opened { session, remote: addr, fec_config });
        let mut payload: Vec<u8> = Vec::new();
        payload.push(fec_config.scheme.to_code());
        payload.push(fec_config.recovery_count);
        payload.push(fec_config.batch_size);
        crate::wire::put_bytes(&mut payload, id.as_slice());
        assert(payload@ =~= request_payload(id@, fec_config));
        let packet: Box<TrackRequestPacket> = TrackRequestPacket::request_track(
            Options::none(),
            session,
            payload,
            now,
        );
        assert(views::PacketView::TrackRequest(packet@) =~= track_request_view(
            session,
            id@,
            fec_config,
            now,
        ));
        messages::push_action(
            actions,
            Action::Send { packet: Packet::TrackRequestPacket(packet), addr },
        );
        assert(self@ =~= before.receiving(session, data, fec_config));
        assert(messages::action_views(actions@) =~= messages::action_views(acts0) + seq![
            ActionView::Opened { session, remote: addr, fec_config },
            ActionView::Send {
                packet: track_request_view(session, id@, fec_config, now),
                addr,
            },
        ]);
        Ok(session)
    }

    /// The application wants a stream completed, with holes or without.
    pub fn set_complete_stream(
        &mut self,
        session_id: SessionId,
        allow_partial: bool,
        actions: &mut Vec<Action>,
    )
        requires
            old(self).wf(),
        ensures
            final(self).wf(),
            final(self)@ == old(self)@.completing(session_id, allow_partial).state,
            messages::appended(
                old(actions)@,
                final(actions)@,
                old(self)@.completing(session_id, allow_partial).actions,
            ),
    {
        match self.stream_message(session_id) {
            Some(mut message) => {
                message.complete = Some(allow_partial);
                self.set_message(session_id, message, actions);
            },
            None => {
                assert(messages::action_views(actions@) =~= messages::action_views(actions@)
                    + seq![]);
            },
        }
    }

    /// Holds the stream of a session, or not. Says whether that is new; gives nothing if
    /// there is no stream.
    pub fn update_paused(
        &mut self,
        session_id: SessionId,
        paused: bool,
        actions: &mut Vec<Action>,
    ) -> (changed: Option<bool>)
        requires
            old(self).wf(),
        ensures
            final(self).wf(),
            final(self)@ == old(self)@.pausing(session_id, paused).state,
            messages::appended(
                old(actions)@,
                final(actions)@,
                old(self)@.pausing(session_id, paused).actions,
            ),
            changed == (if old(self)@.streams(session_id) {
                Some(!old(self)@.already(session_id, paused))
            } else {
                None
            }),
    {
        assert(messages::action_views(actions@) =~= messages::action_views(actions@) + seq![]);
        match self.stream_message(session_id) {
            Some(mut message) => {
                if message.paused == paused {
                    return Some(false);
                }
                message.paused = paused;
                self.set_message(session_id, message, actions);
                Some(true)
            },
            None => None,
        }
    }

    /// Moves the head of the stream that a session receives. Says whether it moved
    /// forward; gives nothing past the end, or if nothing is received.
    pub fn seek(&mut self, session_id: SessionId, pos: BytePosition) -> (r: Option<bool>)
        requires
            old(self).wf(),
        ensures
            final(self).wf(),
            final(self)@ == old(self)@.head_sought(session_id, pos),
            r == Some(true) <==> old(self)@.moves_forward(session_id, pos),
            r is Some <==> old(self)@.receives(session_id) && pos.0 <= old(self)@.conn(
                session_id,
            ).stream().streaming->From_0.buffer.data.len(),
    {
        let ghost before = self@;
        let mut r: Option<bool> = None;
        match self.connections.remove(session_id.0) {
            Some(mut connection) => {
                match &mut connection {
                    ConnectionStates::Handshake { .. } => {},
                    ConnectionStates::Established(established) => match &mut established.state {
                        SessionStates::Streaming(stream) => match &mut stream.streaming {
                            Streaming::From(from) => {
                                r = from.buffer.seek_head(pos);
                            },
                            Streaming::To(_) => {},
                        },
                        _ => {},
                    },
                }
                self.connections.insert(session_id.0, connection);
            },
            None => {},
        }
        assert(self@ =~= before.head_sought(session_id, pos));
        r
    }

    fn send_control(
        session_id: SessionId,
        addr: Address,
        control: PlaybackControlType,
        position: Option<BytePosition>,
        now: Timestamp,
        actions: &mut Vec<Action>,
    )
        ensures
            messages::action_views(final(actions)@) == messages::action_views(old(actions)@).push(
                ActionView::Send { packet: control_view(session_id, control, position, now), addr },
            ),
    {
        messages::push_action(
            actions,
            Action::Send {
                packet: Packet::PlaybackStatusPacket(
                    PlaybackStatusPacket::new(Options::none(), session_id, control, position, now),
                ),
                addr,
            },
        );
    }

    /// The application does something to the stream of a session. The peer is told, unless
    /// nothing changes. Fails if the session is not established.
    pub fn send_playback_control_packet(
        &mut self,
        session_id: SessionId,
        control: PlaybackControl,
        now: Timestamp,
        actions: &mut Vec<Action>,
    ) -> (r: Result<(), ()>)
        requires
            old(self).wf(),
        ensures
            final(self).wf(),
            r is Ok <==> old(self)@.is_up(session_id),
            r is Err ==> final(self)@ == old(self)@ && final(actions)@ == old(actions)@,
            r is Ok ==> {
                let step = old(self)@.controlling(session_id, control, now);
                &&& final(self)@ == step.state
                &&& messages::appended(old(actions)@, final(actions)@, step.actions)
            },
    {
        let ghost before = self@;
        let ghost acts0 = actions@;
        let addr: Address = match self.established_address(session_id) {
            Some(addr) => addr,
            None => {
                return Err(());
            },
        };
        match control {
            PlaybackControl::Play => {
                let changed: Option<bool> = self.update_paused(session_id, false, actions);
                if changed != Some(false) {
                    Self::send_control(
                        session_id,
                        addr,
                        PlaybackControlType::Play,
                        None,
                        now,
                        actions,
                    );
                }
            },
            PlaybackControl::Pause => {
                let changed: Option<bool> = self.update_paused(session_id, true, actions);
                if changed != Some(false) {
                    messages::push_action(
                        actions,
                        Action::Observe(Observation::Paused { session: session_id }),
                    );
                    Self::send_control(
                        session_id,
                        addr,
                        PlaybackControlType::Pause,
                        None,
                        now,
                        actions,
                    );
                }
            },
            PlaybackControl::Close => {
                Self::send_control(
                    session_id,
                    addr,
                    PlaybackControlType::Stop,
                    None,
                    now,
                    actions,
                );
            },
            PlaybackControl::Done => {
                Self::send_control(
                    session_id,
                    addr,
                    PlaybackControlType::Done,
                    None,
                    now,
                    actions,
                );
            },
            PlaybackControl::Seek(pos) => {
                messages::push_action(
                    actions,
                    Action::Observe(Observation::Seeked { session: session_id }),
                );
                if self.seek(session_id, pos) == Some(true) {
                    Self::send_control(
                        session_id,
                        addr,
                        PlaybackControlType::Seek,
                        Some(pos),
                        now,
                        actions,
                    );
                }
            },
        }
        assert(messages::action_views(actions@) =~= messages::action_views(acts0)
            + before.controlling(session_id, control, now).actions);
        Ok(())
    }

    /// The bytes that are missing from the stream that a session receives, as full chunks.
    /// Gives nothing if nothing is received.
    pub fn find_holes(&self, session_id: SessionId) -> (r: Option<Vec<Span>>)
        requires
            self.wf(),
        ensures
            r is Some <==> self@.receives(session_id),
            r matches Some(holes) ==> holes@ == ({
                let buffer = self@.conn(session_id).stream().streaming->From_0.buffer;
                hole_spans(
                    types::hole_positions(
                        buffer.filled,
                        buffer.data.len() as int / MAX_PAYLOAD_LENGTH as int,
                    ),
                )
            }),
    {
        match self.connections.get(session_id.0) {
            Some(ConnectionStates::Established(established)) => match &established.state {
                SessionStates::Streaming(stream) => match &stream.streaming {
                    Streaming::From(from) => {
                        proof {
                            from.buffer.lemma_wf();
                        }
                        let len: usize = from.buffer.len();
                        let until: u32 = if len as u64 <= u32::MAX as u64 {
                            len as u32
                        } else {
                            u32::MAX
                        };
                        let positions: Vec<BytePosition> = from.buffer.find_holes(
                            BytePosition(until),
                        );
                        let mut holes: Vec<Span> = Vec::new();
                        let mut i: usize = 0;
                        while i < positions.len()
                            invariant
                                i <= positions@.len(),
                                holes@ =~= hole_spans(positions@).take(i as int),
                            decreases positions.len() - i,
                        {
                            let start: u64 = positions[i].0 as u64;
                            holes.push(Span { start, end: start + 1384 });
                            i += 1;
                        }
                        assert(holes@ =~= hole_spans(positions@));
                        Some(holes)
                    },
                    Streaming::To(_) => None,
                },
                _ => None,
            },
            _ => None,
        }
    }

    /// The application refuses a stream that the peer of a session asked for.
    pub fn reject_track_request(
        &self,
        session_id: SessionId,
        track_id: Vec<u8>,
        now: Timestamp,
        actions: &mut Vec<Action>,
    )
        ensures
            messages::appended(
                old(actions)@,
                final(actions)@,
                if self@.is_free(session_id) {
                    seq![
                        ActionView::Send {
                            packet: track_rejection_view(session_id, track_id@, now),
                            addr: self@.conn(session_id).addr(),
                        },
                    ]
                } else {
                    seq![]
                },
            ),
    {
        let ghost acts0 = actions@;
        assert(messages::action_views(acts0) =~= messages::action_views(acts0) + seq![]);
        match self.connections.get(session_id.0) {
            Some(connection) => {
                let flat: FlatState = connection.flat();
                if flat == FlatState::Up || flat == FlatState::Down {
                    let addr: Address = connection.address();
                    let packet: Box<TrackRejectionPacket> = TrackRejectionPacket::new(
                        packets::ack_wanted(),
                        session_id,
                        track_id,
                        now,
                    );
                    let ghost view = views::PacketView::TrackRejection(packet@);
                    assert(view =~= track_rejection_view(session_id, track_id@, now));
                    messages::push_action(
                        actions,
                        Action::Send { packet: Packet::TrackRejectionPacket(packet), addr },
                    );
                    assert(messages::action_views(actions@) =~= messages::action_views(acts0)
                        + seq![ActionView::Send { packet: view, addr }]);
                }
            },
            None => {},
        }
    }

    /// Something went wrong in a layer below. A failure that cannot be mended ends the
    /// protocol; a peer that talks another version is told so.
    pub fn handle_errors(&mut self, error: Error, actions: &mut Vec<Action>)
        requires
            old(self).wf(),
        ensures
            final(self).wf(),
            match error {
                Error::Task(_) | Error::Channel(_) | Error::Transport(_) => final(self)@ == (
                StateView { connections: Map::empty(), ..old(self)@ }) && exists|ids: Seq<u64>|
                    #[trigger] state::in_some_order(ids, old(self)@.connections)
                        && messages::appended(
                        old(actions)@,
                        final(actions)@,
                        state::all_closed(old(self)@.connections, ids),
                    ),
                Error::PacketProcessor(
                    PacketProcessingError::IncompatibleVersion(_, src_addr),
                ) => final(self)@ == old(self)@ && messages::appended(
                    old(actions)@,
                    final(actions)@,
                    received::version_replies(src_addr),
                ),
                _ => final(self)@ == old(self)@ && final(actions)@ == old(actions)@,
            },
    {
        match error {
            Error::Task(_) | Error::Channel(_) | Error::Transport(_) => {
                self.advertise_closed(actions);
            },
            Error::PacketProcessor(PacketProcessingError::IncompatibleVersion(_, src_addr)) => {
                received::received_packet_with_incompatible_version(src_addr, actions);
            },
            _ => {},
        }
    }
}

/// Ends a session at the wish of the application. The peer is told while the key of the
/// session is still there.
pub fn close_session(
    state: &mut ProtocolState,
    session_id: SessionId,
    now: Timestamp,
    out: &mut Vec<ProcessedPacket>,
    actions: &mut Vec<Action>,
)
    requires
        old(state).wf(),
    ensures
        final(state).wf(),
        ({
            let before = old(state)@;
            let packet = close_session_packet(session_id, now);
            if before.has(session_id) {
                let told = StateView {
                    encryption: packet.keys_after(before.encryption),
                    ..before
                };
                &&& final(state)@ == told.without(session_id)
                &&& processed::processed_views(final(out)@) == processed::processed_views(old(out)@)
                    + outbound::outgoing(packet, before.conn(session_id).addr(), before.encryption)
                &&& messages::appended(
                    old(actions)@,
                    final(actions)@,
                    before.farewell(session_id),
                )
            } else {
                &&& final(state)@ == before
                &&& final(out)@ == old(out)@
                &&& final(actions)@ == old(actions)@
            }
        }),
{
    let ghost before = state@;
    let addr: Address = match state.connections.get(session_id.0) {
        Some(connection) => connection.address(),
        None => {
            return;
        },
    };
    let packet: Packet = Packet::CloseSessionPacket(
        CloseSessionPacket::new(Options::none(), session_id, now),
    );
    assert(packet == close_session_packet(session_id, now));
    outbound::process_control(packet, addr, &mut state.encryption, out);
    assert(state@ =~= (StateView {
        encryption: close_session_packet(session_id, now).keys_after(before.encryption),
        ..before
    }));
    state.close_session(session_id, actions);
}

/// Closes the stream of a session at the wish of the application. The peer is told.
pub fn close_stream(state: &mut ProtocolState, session_id: SessionId, now: Timestamp, actions: &mut Vec<Action>)
    requires
        old(state).wf(),
    ensures
        final(state).wf(),
        final(state)@ == old(state)@.stream_closed(session_id),
        messages::appended(
            old(actions)@,
            final(actions)@,
            if old(state)@.has(session_id) {
                old(state)@.stream_end(session_id).push(
                    old(state)@.control_send(session_id, PlaybackControlType::Stop, None, now),
                )
            } else {
                seq![]
            },
        ),
{
    let ghost before = state@;
    let ghost acts0 = actions@;
    state.close_stream(session_id, actions);
    assert(state@.has(session_id) == before.has(session_id));
    match state.connections.get(session_id.0) {
        Some(connection) => {
            let addr: Address = connection.address();
            messages::push_action(
                actions,
                Action::Send {
                    packet: Packet::PlaybackStatusPacket(
                        PlaybackStatusPacket::stop(Options::none(), session_id, now),
                    ),
                    addr,
                },
            );
            assert(state@.conn(session_id) == connection@);
            assert(messages::action_views(actions@) =~= messages::action_views(acts0)
                + before.stream_end(session_id).push(
                before.control_send(session_id, PlaybackControlType::Stop, None, now),
            ));
        },
        None => {
            assert(messages::action_views(actions@) =~= messages::action_views(acts0)
                + seq![]);
        },
    }
}

/// The chunks at positions.
pub open spec fn hole_spans(positions: Seq<BytePosition>) -> Seq<Span> {
    Seq::new(
        positions.len(),
        |i: int| Span { start: positions[i].0 as u64, end: (positions[i].0 + 1384) as u64 },
    )
}

} // verus!
