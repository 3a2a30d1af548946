//! What becomes of packets that arrive.
use vstd::prelude::*;

use crate::error::{ConnectionError, ConnectionErrorView, Error, FlatState};
use crate::manager::connection;
use crate::manager::connection::{ConnView, ConnectionStates, EstablishedView};
use crate::manager::fields::{
    ErrorType, FecScheme, HandshakeRejectionReason, Options, PacketType, PlaybackControlType,
    SecondaryType, SessionId, Version, CURRENT_VERSION,
};
use crate::manager::identity::{Address, PacketFingerprint, Reserved};
use crate::manager::images::{
    AckPacket, CloseSessionPacket, HandshakeAckPacket, HandshakeRejection, KeepAlivePacket,
    RetransmitPacket, SessionDoesNotExistErrorPacket, TrackRejectionPacket, TrackRequestPacket,
    UnexpectedPacketErrorPacket,
};
use crate::manager::packets;
use crate::manager::packets::{IncompatibleVersionPacket, Packet, PlaybackStatusPacket};
use crate::manager::ranges::FecConfig;
use crate::manager::state::{ProtocolState, StateStep, StateView};
use crate::manager::types::Timestamp;
use crate::manager::views;
use crate::packet_processor::fec;
use crate::packet_processor::fingerprint;
use crate::packet_processor::fingerprint::{header_fingerprint, Headers};
use crate::utils::data_collection::Observation;
use crate::utils::messages;
use crate::utils::messages::{
    Action, ActionView, ConnectionEventView, InnerConnectionEvent, PlaybackControl, StreamEvent,
    StreamEventView, StreamMessage,
};
use crate::utils::Flags;
use crate::DEFAULT_PORT;

verus! {

/// How long a data packet is kept for a session whose handshake is not done, in seconds.
pub const BUFFERING_TIME_FOR_HANDSHAKE: u64 = 7;

/// Calls `std::str::from_utf8`: whether bytes are text in UTF-8.
#[verifier::external_body]
fn is_utf8(bytes: &[u8]) -> (r: bool)
    ensures
        r == vstd::utf8::valid_utf8(bytes@),
{
    std::str::from_utf8(bytes).is_ok()
}

/// The acknowledgement of a packet.
pub open spec fn ack_view(session: SessionId, fingerprint: u128, now: Timestamp) -> views::PacketView {
    views::PacketView::Ack(
        AckPacket {
            version: Version(CURRENT_VERSION),
            opts: Options(0),
            packet_type: PacketType::Ack,
            reserved: Reserved,
            session_id: session,
            timestamp: now,
            fingerprint: PacketFingerprint(fingerprint),
        },
    )
}

/// The complaint about a data packet that makes no sense for its session.
pub open spec fn unexpected_view(
    session: SessionId,
    fingerprint: u128,
    now: Timestamp,
) -> views::PacketView {
    views::PacketView::UnexpectedError(
        UnexpectedPacketErrorPacket {
            version: Version(CURRENT_VERSION),
            opts: Options(0),
            packet_type: PacketType::Error,
            error_type: ErrorType::UnexpectedPacket,
            reserved: Reserved,
            session_id: session,
            timestamp: now,
            received_packet_type: PacketType::Data,
            received_secondary_type: SecondaryType(0),
            received_fingerprint: PacketFingerprint(fingerprint),
        },
    )
}

impl StateView {
    /// The state after the peer of a session was heard of.
    pub open spec fn heard(self, session: SessionId, ts: Timestamp) -> StateView {
        if self.is_up(session) {
            self.with_conn(
                session,
                ConnView::Established(
                    EstablishedView {
                        last_activity: ts.0,
                        ..self.conn(session)->Established_0
                    },
                ),
            )
        } else {
            self
        }
    }

    /// The acknowledgement that the peer of a session gets.
    pub open spec fn acks(self, session: SessionId, fingerprint: u128, now: Timestamp) -> Seq<
        ActionView,
    > {
        if self.is_up(session) {
            seq![
                ActionView::Send {
                    packet: ack_view(session, fingerprint, now),
                    addr: self.conn(session).addr(),
                },
            ]
        } else {
            seq![]
        }
    }

    /// The complaint that the peer of a session gets.
    pub open spec fn complains(self, session: SessionId, fingerprint: u128, now: Timestamp) -> Seq<
        ActionView,
    > {
        if self.has(session) {
            seq![
                ActionView::Send {
                    packet: unexpected_view(session, fingerprint, now),
                    addr: self.conn(session).addr(),
                },
            ]
        } else {
            seq![]
        }
    }

    /// What the application is told when the peer closes a session.
    pub open spec fn closing_notice(self, session: SessionId) -> Seq<ActionView> {
        if self.streams(session) {
            seq![
                ActionView::Publish {
                    session,
                    message: StreamMessage { closed: true, ..self.message(session) },
                },
            ]
        } else if self.is_up(session) {
            seq![ActionView::Notify { session, news: ConnectionEventView::ConnectionClosed }]
        } else {
            seq![]
        }
    }

    /// The state after the peer rejected a request for a stream.
    pub open spec fn track_rejected(self, session: SessionId) -> StateStep {
        if self.streams(session) {
            let message = StreamMessage { approved: Some(false), ..self.message(session) };
            StateStep {
                state: self.with_message(session, message),
                actions: seq![ActionView::Publish { session, message }],
            }
        } else {
            StateStep { state: self, actions: seq![] }
        }
    }

    /// What a request for bytes of a stream tells.
    pub open spec fn retransmit_served(self, packet: views::RetransmitView) -> Seq<ActionView> {
        let session = packet.session_id;
        let count = packet.payload.len();
        if self.sends(session) {
            (if 0 < count <= u32::MAX {
                seq![
                    ActionView::Observe(
                        Observation::RetransmitServed { session, count: count as u32 },
                    ),
                ]
            } else {
                seq![]
            }).push(
                ActionView::Signal { session, event: StreamEventView::Retransmit(packet.payload) },
            )
        } else {
            seq![]
        }
    }
}

impl StateView {
    /// The state after the peer refused a handshake, and what that tells.
    pub open spec fn refused(self, packet: views::HandshakeRejectionView) -> StateStep {
        match packet.reason {
            HandshakeRejectionReason::App => {
                let id = packet.handshake_id;
                if self.handshakes.dom().contains(id) {
                    StateStep {
                        state: StateView { handshakes: self.handshakes.remove(id), ..self },
                        actions: seq![
                            ActionView::Failed {
                                ticket: self.handshakes[id].ticket,
                                error: ConnectionErrorView::PeerRejected(
                                    reason_of(packet.payload),
                                ),
                            },
                        ],
                    }
                } else {
                    StateStep { state: self, actions: seq![] }
                }
            },
            HandshakeRejectionReason::IdCollision => StateStep {
                state: StateView {
                    connections: self.connections.remove(packet.session_id.0),
                    ..self
                },
                actions: if self.has(packet.session_id) {
                    match self.conn(packet.session_id) {
                        ConnView::Handshake { session_id, ticket, app_id, address } => seq![
                            ActionView::Failed {
                                ticket,
                                error: ConnectionErrorView::SessionIdCollided,
                            },
                        ],
                        ConnView::Established(_) => seq![],
                    }
                } else {
                    seq![]
                },
            },
        }
    }

    /// The state after the peer did something to a stream, and what that tells.
    pub open spec fn controlled(self, packet: PlaybackStatusPacket) -> StateStep {
        let session = packet.session_id;
        if packet.control_type == PlaybackControlType::Stop {
            StateStep { state: self.stream_closed(session), actions: self.stream_end(session) }
        } else if self.sends(session) {
            StateStep {
                state: self,
                actions: seq![
                    ActionView::Signal {
                        session,
                        event: StreamEventView::Playback(PlaybackControl::asked_by(packet)),
                    },
                ],
            }
        } else {
            StateStep { state: self, actions: seq![] }
        }
    }

    /// What the application is told when the memory of a stream is gone.
    pub open spec fn buffer_gone(self, session: SessionId) -> Seq<ActionView> {
        if self.streams(session) {
            seq![
                ActionView::Publish {
                    session,
                    message: StreamMessage { buffer_closed: true, ..self.message(session) },
                },
            ]
        } else {
            seq![]
        }
    }
}

/// The packet that says which versions can be talked to, for the peer at `addr`.
pub open spec fn version_reply(addr: Address) -> ActionView {
    ActionView::Send {
        packet: views::PacketView::IncompatibleVersion(IncompatibleVersionPacket::spec_packet()),
        addr,
    }
}

/// What a peer that talks another version gets: a reply to where it sent from, and one to
/// the usual port.
pub open spec fn version_replies(src_addr: Address) -> Seq<ActionView> {
    (if src_addr.spec_port() != DEFAULT_PORT {
        seq![version_reply(src_addr.at_port(DEFAULT_PORT))]
    } else {
        seq![]
    }).push(version_reply(src_addr))
}

/// Tells a peer that talks another version which ones can be talked to.
pub fn received_packet_with_incompatible_version(src_addr: Address, actions: &mut Vec<Action>)
    ensures
        messages::appended(old(actions)@, final(actions)@, version_replies(src_addr)),
{
    let ghost acts0 = actions@;
    if src_addr.port() != DEFAULT_PORT {
        messages::push_action(
            actions,
            Action::Send {
                packet: Packet::IncompatibleVersionPacket(IncompatibleVersionPacket::packet()),
                addr: src_addr.with_port(DEFAULT_PORT),
            },
        );
    }
    messages::push_action(
        actions,
        Action::Send {
            packet: Packet::IncompatibleVersionPacket(IncompatibleVersionPacket::packet()),
            addr: src_addr,
        },
    );
    assert(messages::action_views(actions@) =~= messages::action_views(acts0) + version_replies(
        src_addr,
    ));
}

/// The way of coding that a request for a stream asks for, if it is one.
pub open spec fn asked_config(payload: Seq<u8>) -> Option<FecConfig> {
    if payload.len() < 3 {
        None
    } else {
        match FecScheme::of_code(payload[0]) {
            Some(scheme) => Some(
                FecConfig { scheme, recovery_count: payload[1], batch_size: payload[2] },
            ),
            None => None,
        }
    }
}

/// The reason that a rejection gives. One zero byte, or what is not text, is none.
pub open spec fn reason_of(payload: Seq<u8>) -> Option<Seq<u8>> {
    if payload == seq![0u8] {
        None
    } else if vstd::utf8::valid_utf8(payload) {
        Some(payload)
    } else {
        None
    }
}

impl ProtocolState {
    /// Takes note that the peer of a session was heard of.
    pub fn update_last_activity(&mut self, session_id: SessionId, ts: Timestamp)
        requires
            old(self).wf(),
        ensures
            final(self).wf(),
            final(self)@ == old(self)@.heard(session_id, ts),
    {
        let ghost before = self@;
        match self.connections.remove(session_id.0) {
            Some(mut connection) => {
                match &mut connection {
                    ConnectionStates::Handshake { .. } => {},
                    ConnectionStates::Established(established) => {
                        established.last_activity.update(ts.get());
                    },
                }
                self.connections.insert(session_id.0, connection);
            },
            None => {},
        }
        assert(self@ =~= before.heard(session_id, ts));
    }

    /// Acknowledges a packet of a session that is established.
    pub fn received_packet_that_requires_ack(
        &self,
        session_id: SessionId,
        fingerprint: PacketFingerprint,
        now: Timestamp,
        actions: &mut Vec<Action>,
    )
        ensures
            messages::appended(
                old(actions)@,
                final(actions)@,
                self@.acks(session_id, fingerprint.0, now),
            ),
    {
        let ghost acts0 = actions@;
        match self.established_address(session_id) {
            Some(addr) => {
                proof {
                    packets::no_options_want_no_ack();
                }
                let packet = Packet::AckPacket(
                    AckPacket::new(Options::none(), session_id, fingerprint, now),
                );
                messages::push_action(actions, Action::Send { packet, addr });
            },
            None => {},
        }
        assert(messages::action_views(actions@) =~= messages::action_views(acts0) + self@.acks(
            session_id,
            fingerprint.0,
            now,
        ));
    }

    /// The peer closed a session: the application is told, and the session ends.
    pub fn notify_and_close_session(&mut self, session_id: SessionId, actions: &mut Vec<Action>)
        requires
            old(self).wf(),
        ensures
            final(self).wf(),
            final(self)@ == old(self)@.without(session_id),
            messages::appended(
                old(actions)@,
                final(actions)@,
                old(self)@.closing_notice(session_id) + old(self)@.farewell(session_id),
            ),
    {
        let ghost before = self@;
        let ghost acts0 = actions@;
        match self.stream_message(session_id) {
            Some(mut message) => {
                message.closed = true;
                messages::push_action(actions, Action::Publish { session: session_id, message });
            },
            None => match self.established_address(session_id) {
                Some(_) => {
                    messages::push_action(
                        actions,
                        Action::Notify {
                            session: session_id,
                            news: InnerConnectionEvent::ConnectionClosed,
                        },
                    );
                },
                None => {},
            },
        }
        let ghost acts1 = actions@;
        assert(messages::action_views(acts1) =~= messages::action_views(acts0)
            + before.closing_notice(session_id));
        self.close_session(session_id, actions);
        assert(messages::action_views(actions@) =~= messages::action_views(acts0) + (
        before.closing_notice(session_id) + before.farewell(session_id)));
    }

    /// The peer closed a session.
    pub fn received_close_session_packet(
        &mut self,
        packet: &CloseSessionPacket,
        actions: &mut Vec<Action>,
    )
        requires
            old(self).wf(),
        ensures
            final(self).wf(),
            final(self)@ == old(self)@.without(packet.session_id),
            messages::appended(
                old(actions)@,
                final(actions)@,
                old(self)@.closing_notice(packet.session_id) + old(self)@.farewell(
                    packet.session_id,
                ),
            ),
    {
        self.notify_and_close_session(packet.session_id, actions);
    }

    /// The peer does not know a session. There is nothing left to do with it.
    pub fn received_session_does_not_exist_error(
        &mut self,
        packet: &SessionDoesNotExistErrorPacket,
        actions: &mut Vec<Action>,
    )
        requires
            old(self).wf(),
        ensures
            final(self).wf(),
            final(self)@ == old(self)@.without(packet.session_id),
            messages::appended(
                old(actions)@,
                final(actions)@,
                old(self)@.closing_notice(packet.session_id) + old(self)@.farewell(
                    packet.session_id,
                ),
            ),
    {
        self.notify_and_close_session(packet.session_id, actions);
    }

    /// The application of the peer rejected a request for a stream.
    pub fn received_track_reject_packet(
        &mut self,
        packet: &TrackRejectionPacket,
        actions: &mut Vec<Action>,
    )
        requires
            old(self).wf(),
        ensures
            final(self).wf(),
            final(self)@ == old(self)@.track_rejected(packet.session_id).state,
            messages::appended(
                old(actions)@,
                final(actions)@,
                old(self)@.track_rejected(packet.session_id).actions,
            ),
    {
        match self.stream_message(packet.session_id) {
            Some(mut message) => {
                message.approved = Some(false);
                self.set_message(packet.session_id, message, actions);
            },
            None => {
                assert(messages::action_views(actions@) =~= messages::action_views(actions@)
                    + seq![]);
            },
        }
    }

    /// The peer asks for bytes of a stream again: the one who sends it is told.
    pub fn received_retransmit_request(
        &self,
        packet: RetransmitPacket,
        now: Timestamp,
        actions: &mut Vec<Action>,
    )
        ensures
            messages::appended(
                old(actions)@,
                final(actions)@,
                (if packets::wants_ack(packet.opts) {
                    self@.acks(
                        packet.session_id,
                        fingerprint::xxh3_128_of(packet.head_image()),
                        now,
                    )
                } else {
                    seq![]
                }) + self@.retransmit_served(packet@),
            ),
    {
        let ghost acts0 = actions@;
        let session: SessionId = packet.session_id;
        let ghost view = packet@;
        let ghost acked = if packets::wants_ack(packet.opts) {
            self@.acks(
                packet.session_id,
                fingerprint::xxh3_128_of(packet.head_image()),
                now,
            )
        } else {
            seq![]
        };
        if packets::requires_ack(packet.opts) {
            self.received_packet_that_requires_ack(
                session,
                header_fingerprint(&packet),
                now,
                actions,
            );
        }
        let ghost acts1 = actions@;
        assert(messages::action_views(acts1) =~= messages::action_views(acts0) + acked);
        let sends: bool = match self.connections.get(session.0) {
            Some(connection) => connection.flat() == FlatState::StreamingTo,
            None => false,
        };
        if sends {
            let served: usize = packet.payload.len();
            if served > 0 && served as u64 <= u32::MAX as u64 {
                messages::push_action(
                    actions,
                    Action::Observe(
                        Observation::RetransmitServed { session, count: served as u32 },
                    ),
                );
            }
            messages::push_action(
                actions,
                Action::Signal { session, event: StreamEvent::Retransmit(packet.payload) },
            );
        }
        assert(messages::action_views(actions@) =~= messages::action_views(acts0) + (acked
            + self@.retransmit_served(view)));
    }

    /// The peer of a session gives a sign of life from the address that it is at now.
    pub fn received_keep_alive_packet(
        &mut self,
        packet: &KeepAlivePacket,
        src_addr: Address,
        actions: &mut Vec<Action>,
    )
        requires
            old(self).wf(),
        ensures
            final(self).wf(),
            final(self)@ == old(self)@.heard(packet.session_id, packet.timestamp).moved(
                packet.session_id,
                src_addr,
            ),
            messages::appended(
                old(actions)@,
                final(actions)@,
                if old(self)@.movable(packet.session_id, src_addr) {
                    seq![
                        ActionView::Observe(
                            Observation::AddressRebind { session: packet.session_id },
                        ),
                    ]
                } else {
                    seq![]
                },
            ),
    {
        self.update_last_activity(packet.session_id, packet.timestamp);
        let _ = self.update_address(packet.session_id, src_addr, actions);
    }

    /// The peer asks for a stream: the application is told. A request that is too short
    /// or asks for a coding that is not known is dropped.
    pub fn received_track_request_packet(
        &mut self,
        packet: TrackRequestPacket,
        actions: &mut Vec<Action>,
    )
        requires
            old(self).wf(),
        ensures
            final(self).wf(),
            final(self)@ == old(self)@.heard(packet.session_id, packet.timestamp),
            messages::appended(
                old(actions)@,
                final(actions)@,
                match asked_config(packet.payload@) {
                    Some(config) => if old(self)@.is_up(packet.session_id) {
                        seq![
                            ActionView::Notify {
                                session: packet.session_id,
                                news: ConnectionEventView::TrackRequest(
                                    packet.payload@.skip(3),
                                    config,
                                ),
                            },
                        ]
                    } else {
                        seq![]
                    },
                    None => seq![],
                },
            ),
    {
        let ghost acts0 = actions@;
        assert(messages::action_views(acts0) =~= messages::action_views(acts0) + seq![]);
        let session: SessionId = packet.session_id;
        self.update_last_activity(session, packet.timestamp);
        let raw: &Vec<u8> = &packet.payload;
        if raw.len() < 3 {
            return;
        }
        let scheme: FecScheme = match FecScheme::from_code(raw[0]) {
            Some(scheme) => scheme,
            None => {
                return;
            },
        };
        let config = FecConfig { scheme, recovery_count: raw[1], batch_size: raw[2] };
        let id: Vec<u8> = crate::wire::copy_range(raw.as_slice(), 3, raw.len());
        assert(id@ =~= raw@.skip(3));
        match self.established_address(session) {
            Some(_) => {
                messages::push_action(
                    actions,
                    Action::Notify {
                        session,
                        news: InnerConnectionEvent::TrackRequest(id, config),
                    },
                );
                assert(messages::action_views(actions@) =~= messages::action_views(acts0) + seq![
                    ActionView::Notify {
                        session,
                        news: ConnectionEventView::TrackRequest(id@, config),
                    },
                ]);
            },
            None => {},
        }
    }

    /// A packet was acknowledged.
    pub fn received_ack_packet(&mut self, packet: &AckPacket)
        requires
            old(self).wf(),
        ensures
            final(self).wf(),
            final(self)@ == ({
                let heard = old(self)@.heard(packet.session_id, packet.timestamp);
                (StateView { ack: heard.ack.acknowledged(packet.fingerprint.0), ..heard })
            }),
    {
        self.update_last_activity(packet.session_id, packet.timestamp);
        self.ack.acknowledge(packet.fingerprint);
    }

    /// The peer confirmed a session.
    pub fn received_handshake_ack_packet(
        &mut self,
        packet: &HandshakeAckPacket,
        actions: &mut Vec<Action>,
    )
        requires
            old(self).wf(),
        ensures
            final(self).wf(),
            final(self)@ == old(self)@.confirmed(packet.session_id),
            messages::appended(
                old(actions)@,
                final(actions)@,
                old(self)@.confirmation(packet.session_id),
            ),
    {
        self.handshake_done(packet.session_id, actions);
    }

    /// The peer refused a handshake: the one who waits for it is told.
    pub fn received_handshake_rejected_packet(
        &mut self,
        packet: HandshakeRejection,
        actions: &mut Vec<Action>,
    )
        requires
            old(self).wf(),
        ensures
            final(self).wf(),
            final(self)@ == old(self)@.refused(packet@).state,
            messages::appended(
                old(actions)@,
                final(actions)@,
                old(self)@.refused(packet@).actions,
            ),
    {
        let ghost before = self@;
        let ghost acts0 = actions@;
        let ghost view = packet@;
        match packet.reason {
            HandshakeRejectionReason::App => {
                match self.handshakes.take(packet.handshake_id) {
                    Some(state) => {
                        let none: bool = packet.payload.len() == 1 && packet.payload[0] == 0;
                        assert(none <==> packet.payload@ =~= seq![0u8]);
                        let reason: Option<Vec<u8>> = if none || !is_utf8(
                            packet.payload.as_slice(),
                        ) {
                            None
                        } else {
                            Some(packet.payload)
                        };
                        messages::push_action(
                            actions,
                            Action::Failed {
                                ticket: state.ticket,
                                error: ConnectionError::PeerRejected(reason),
                            },
                        );
                    },
                    None => {},
                }
            },
            HandshakeRejectionReason::IdCollision => {
                match self.connections.remove(packet.session_id.0) {
                    Some(ConnectionStates::Handshake {
                        session_id: _,
                        ticket,
                        app_id: _,
                        address: _,
                    }) => {
                        messages::push_action(
                            actions,
                            Action::Failed { ticket, error: ConnectionError::SessionIdCollided },
                        );
                    },
                    _ => {},
                }
            },
        }
        assert(self@ =~= before.refused(view).state);
        assert(messages::action_views(actions@) =~= messages::action_views(acts0)
            + before.refused(view).actions);
    }

    /// The peer did something to a stream: the one who sends it is told, or the stream is
    /// closed.
    pub fn received_playback_control_packet(
        &mut self,
        packet: &PlaybackStatusPacket,
        actions: &mut Vec<Action>,
    )
        requires
            old(self).wf(),
        ensures
            final(self).wf(),
            final(self)@ == old(self)@.controlled(*packet).state,
            messages::appended(
                old(actions)@,
                final(actions)@,
                old(self)@.controlled(*packet).actions,
            ),
    {
        let ghost acts0 = actions@;
        let ghost before = self@;
        let session: SessionId = packet.session_id;
        if packet.control_type == PlaybackControlType::Stop {
            self.close_stream(session, actions);
            return;
        }
        let sends: bool = match self.connections.get(session.0) {
            Some(connection) => connection.flat() == FlatState::StreamingTo,
            None => false,
        };
        if sends {
            messages::push_action(
                actions,
                Action::Signal {
                    session,
                    event: StreamEvent::Playback(PlaybackControl::from_packet(packet)),
                },
            );
        }
        assert(messages::action_views(actions@) =~= messages::action_views(acts0)
            + before.controlled(*packet).actions);
    }

    /// The memory of a stream is gone: the application is told, and the session ends.
    pub fn failed_to_deref_buffer(&mut self, session_id: SessionId, actions: &mut Vec<Action>)
        requires
            old(self).wf(),
        ensures
            final(self).wf(),
            final(self)@ == old(self)@.without(session_id),
            messages::appended(
                old(actions)@,
                final(actions)@,
                old(self)@.buffer_gone(session_id) + old(self)@.farewell(session_id),
            ),
    {
        let ghost before = self@;
        let ghost acts0 = actions@;
        match self.stream_message(session_id) {
            Some(mut message) => {
                message.buffer_closed = true;
                messages::push_action(actions, Action::Publish { session: session_id, message });
            },
            None => {},
        }
        let ghost acts1 = actions@;
        assert(messages::action_views(acts1) =~= messages::action_views(acts0)
            + before.buffer_gone(session_id));
        self.close_session(session_id, actions);
        assert(messages::action_views(actions@) =~= messages::action_views(acts0) + (
        before.buffer_gone(session_id) + before.farewell(session_id)));
    }
}

} // verus!
