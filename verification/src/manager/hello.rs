//! Handshakes: how two peers come to a session and its key.
use vstd::prelude::*;

use crate::manager::fields::{
    ControlType, HandshakeId, HandshakeRejectionReason, HostControlType, Options, PacketType, Port,
    SessionId, Version, CURRENT_VERSION,
};
use crate::manager::handshakes::HandshakeView;
use crate::manager::identity::{Address, PublicKey, Reserved};
use crate::manager::images::{HandshakeAckPacket, HandshakeRejection, HelloPacket};
use crate::manager::key_exchange;
use crate::manager::key_exchange::EphemeralSecret;
use crate::manager::packets;
use crate::manager::packets::Packet;
use crate::manager::state::{KeyView, ProtocolState, StateStep, StateView};
use crate::manager::types::Timestamp;
use crate::manager::views;
use crate::packet_processor::encryption::EncryptionWindow;
use crate::utils::messages;
use crate::utils::messages::{Action, ActionView, AppResponse};
use crate::utils::Flags;

verus! {

/// The packet that proposes a session.
pub open spec fn hello_view(
    opts: Options,
    session: SessionId,
    handshake: HandshakeId,
    public_key: Seq<u8>,
    app_id: Seq<u8>,
    port: Port,
    now: Timestamp,
) -> views::PacketView {
    views::PacketView::Hello(
        views::HelloView {
            version: Version(CURRENT_VERSION),
            opts,
            packet_type: PacketType::Host,
            control_type: ControlType::Host(HostControlType::Hello),
            reserved: Reserved,
            proposed_session_id: session,
            timestamp: now,
            handshake_id: handshake,
            public_key,
            receiving_port: port,
            app_id,
        },
    )
}

/// The packet that refuses a session.
pub open spec fn rejection_view(
    session: SessionId,
    reason: HandshakeRejectionReason,
    handshake: HandshakeId,
    payload: Seq<u8>,
    now: Timestamp,
) -> views::PacketView {
    views::PacketView::HandshakeRejection(
        views::HandshakeRejectionView {
            version: Version(CURRENT_VERSION),
            opts: Options(0),
            packet_type: PacketType::Host,
            control_type: ControlType::Host(HostControlType::HandshakeRejection),
            reserved: Reserved,
            session_id: session,
            timestamp: now,
            reason,
            handshake_id: handshake,
            payload,
        },
    )
}

/// The packet that confirms a session.
pub open spec fn handshake_ack_view(
    session: SessionId,
    handshake: HandshakeId,
    now: Timestamp,
) -> views::PacketView {
    views::PacketView::HandshakeAck(
        HandshakeAckPacket {
            version: Version(CURRENT_VERSION),
            opts: Options(0),
            packet_type: PacketType::HandshakeAck,
            reserved: Reserved,
            session_id: session,
            timestamp: now,
            handshake_id: handshake,
        },
    )
}

/// Whether both peers have the key: what this one makes of its secret and the public key
/// of the other is what the other makes of its own secret and this one's public key.
pub open spec fn shared(key: Seq<u8>, secret: Seq<u8>, public_key: Seq<u8>) -> bool {
    &&& key == key_exchange::x25519_of(secret, public_key)
    &&& forall|peer: Seq<u8>|
        peer.len() == 32 && public_key == #[trigger] key_exchange::public_of(peer) ==> key
            == key_exchange::x25519_of(peer, key_exchange::public_of(secret))
}

impl StateView {
    /// The state with a key for a session.
    pub open spec fn keyed(self, session: SessionId, key: Seq<u8>) -> StateView {
        StateView {
            encryption: self.encryption.insert(session.0, KeyView { key, counter: 0 }),
            ..self
        }
    }

    /// The state after a handshake began with the peer at `address`, and what is sent.
    pub open spec fn connecting(
        self,
        address: Address,
        ticket: u64,
        session: SessionId,
        handshake: HandshakeId,
        secret: Seq<u8>,
        now: Timestamp,
    ) -> StateStep {
        StateStep {
            state: StateView {
                handshakes: self.handshakes.insert(
                    handshake,
                    HandshakeView { peer_address: address, secret, session_id: session, ticket },
                ),
                ..self
            },
            actions: seq![
                ActionView::Send {
                    packet: hello_view(
                        Options(0),
                        session,
                        handshake,
                        key_exchange::public_of(secret),
                        self.app_id,
                        self.port,
                        now,
                    ),
                    addr: address,
                },
            ],
        }
    }

    /// The state after the application agreed to a session, and what is sent.
    pub open spec fn approving(
        self,
        packet: views::HelloView,
        src_addr: Address,
        ticket: u64,
        session: SessionId,
        secret: Seq<u8>,
        now: Timestamp,
    ) -> StateStep {
        StateStep {
            state: self.with_session(session, ticket, src_addr, packet.app_id).keyed(
                session,
                key_exchange::x25519_of(secret, packet.public_key),
            ),
            actions: seq![
                ActionView::Send {
                    packet: hello_view(
                        packets::with_ack(Options(0)),
                        session,
                        packet.handshake_id,
                        key_exchange::public_of(secret),
                        self.app_id,
                        self.port,
                        now,
                    ),
                    addr: src_addr,
                },
            ],
        }
    }

    /// The id of a session that a peer proposed: the drawn one if there is a session with
    /// the proposed one.
    pub open spec fn session_for_spec(self, proposed: SessionId, drawn: SessionId) -> SessionId {
        if self.has(proposed) {
            drawn
        } else {
            proposed
        }
    }

    /// The state after the application answered whether it wants a session, and what is
    /// sent.
    pub open spec fn answering(
        self,
        packet: views::HelloView,
        src_addr: Address,
        response: AppResponse,
        ticket: u64,
        drawn: SessionId,
        secret: Seq<u8>,
        now: Timestamp,
    ) -> StateStep {
        match response {
            AppResponse::AppRejected(message) => StateStep {
                state: self,
                actions: seq![
                    ActionView::Send {
                        packet: rejection_view(
                            packet.proposed_session_id,
                            HandshakeRejectionReason::App,
                            packet.handshake_id,
                            message@,
                            now,
                        ),
                        addr: src_addr,
                    },
                ],
            },
            AppResponse::AppApproved => self.approving(
                packet,
                src_addr,
                ticket,
                self.session_for_spec(packet.proposed_session_id, drawn),
                secret,
                now,
            ),
        }
    }

    /// The state after the peer answered a handshake, and what is told and sent.
    pub open spec fn answered(
        self,
        packet: views::HelloView,
        src_addr: Address,
        now: Timestamp,
    ) -> StateStep {
        let session = packet.proposed_session_id;
        let handshake = packet.handshake_id;
        let promoted = self.promoted(session, src_addr, handshake, packet.app_id);
        if self.promotable(session, handshake) {
            StateStep {
                state: promoted.keyed(
                    session,
                    key_exchange::x25519_of(
                        self.handshakes[handshake].secret,
                        packet.public_key,
                    ),
                ),
                actions: seq![
                    ActionView::Connected { ticket: self.handshakes[handshake].ticket, session },
                    ActionView::Send {
                        packet: handshake_ack_view(session, handshake, now),
                        addr: src_addr,
                    },
                ],
            }
        } else {
            StateStep { state: promoted, actions: seq![] }
        }
    }

    /// The state after the peer proposed a session that exists: the handshake begins anew
    /// under another id. What is sent comes with it.
    pub open spec fn colliding(
        self,
        packet: views::HelloView,
        src_addr: Address,
        session: SessionId,
        handshake: HandshakeId,
        secret: Seq<u8>,
        now: Timestamp,
    ) -> StateStep {
        StateStep {
            state: self.reused(
                packet.proposed_session_id,
                packet.handshake_id,
                secret,
                handshake,
            ),
            actions: seq![
                collision_reply(packet, src_addr, now),
                ActionView::Send {
                    packet: hello_view(
                        Options(0),
                        session,
                        handshake,
                        key_exchange::public_of(secret),
                        self.app_id,
                        self.port,
                        now,
                    ),
                    addr: src_addr,
                },
            ],
        }
    }
}

/// What becomes of a handshake that cannot begin anew, since every id is in use.
pub open spec fn no_id_left(
    state: StateView,
    next: StateView,
    packet: views::HelloView,
    src_addr: Address,
    now: Timestamp,
    before: Seq<ActionView>,
    after: Seq<ActionView>,
) -> bool {
    &&& forall|id: HandshakeId| !#[trigger] id.usable(
        state.handshakes.remove(packet.handshake_id),
    )
    &&& next == (StateView { handshakes: state.handshakes.remove(packet.handshake_id), ..state })
    &&& after == before + seq![collision_reply(packet, src_addr, now)]
}

/// What a peer gets that proposed a session that exists.
pub open spec fn collision_reply(
    packet: views::HelloView,
    src_addr: Address,
    now: Timestamp,
) -> ActionView {
    ActionView::Send {
        packet: rejection_view(
            packet.proposed_session_id,
            HandshakeRejectionReason::IdCollision,
            packet.handshake_id,
            seq![],
            now,
        ),
        addr: src_addr,
    }
}

impl ProtocolState {
    /// Offers a session to the peer at an address, or answers its offer.
    pub fn send_hello_packet(
        &self,
        opts: Options,
        session: SessionId,
        handshake: HandshakeId,
        public_key: PublicKey,
        addr: Address,
        now: Timestamp,
        actions: &mut Vec<Action>,
    )
        ensures
            messages::action_views(final(actions)@) == messages::action_views(old(actions)@).push(
                ActionView::Send {
                    packet: hello_view(
                        opts,
                        session,
                        handshake,
                        public_key@,
                        self@.app_id,
                        self@.port,
                        now,
                    ),
                    addr,
                },
            ),
    {
        let packet: Box<HelloPacket> = HelloPacket::new(
            opts,
            session,
            handshake,
            public_key,
            self.app_id.duplicate(),
            self.port,
            now,
        );
        assert(views::PacketView::Hello(packet@) =~= hello_view(
            opts,
            session,
            handshake,
            public_key@,
            self@.app_id,
            self@.port,
            now,
        ));
        messages::push_action(actions, Action::Send { packet: Packet::HelloPacket(packet), addr });
    }

    /// Begins a handshake with the peer at `address`, with the given ids and secret. The
    /// one who waits for it holds the ticket.
    pub fn connect_with(
        &mut self,
        address: Address,
        ticket: u64,
        session_id: SessionId,
        handshake_id: HandshakeId,
        ephemeral_secret: EphemeralSecret,
        now: Timestamp,
        actions: &mut Vec<Action>,
    )
        requires
            old(self).wf(),
        ensures
            final(self).wf(),
            ({
                let step = old(self)@.connecting(
                    address,
                    ticket,
                    session_id,
                    handshake_id,
                    ephemeral_secret@,
                    now,
                );
                &&& final(self)@ == step.state
                &&& messages::appended(old(actions)@, final(actions)@, step.actions)
            }),
    {
        let ghost before = self@;
        let ghost acts0 = actions@;
        let ghost secret = ephemeral_secret@;
        let public_key: PublicKey = ephemeral_secret.public_key();
        self.handshakes.new_handshake(
            handshake_id,
            address,
            ephemeral_secret,
            session_id,
            ticket,
        );
        self.send_hello_packet(Options::none(), session_id, handshake_id, public_key, address, now, actions);
        let ghost step = before.connecting(
            address,
            ticket,
            session_id,
            handshake_id,
            secret,
            now,
        );
        assert(self@ =~= step.state);
        assert(messages::action_views(actions@) =~= messages::action_views(acts0) + step.actions);
    }

    /// Begins a handshake with the peer at `address`, with ids and a secret drawn at
    /// random. Fails only if every id is in use.
    pub fn connect(
        &mut self,
        address: Address,
        ticket: u64,
        now: Timestamp,
        actions: &mut Vec<Action>,
    ) -> (begun: bool)
        requires
            old(self).wf(),
        ensures
            final(self).wf(),
            begun ==> exists|session: SessionId, handshake: HandshakeId, secret: Seq<u8>| {
                let step = #[trigger] old(self)@.connecting(
                    address,
                    ticket,
                    session,
                    handshake,
                    secret,
                    now,
                );
                &&& handshake.usable(old(self)@.handshakes)
                &&& secret.len() == 32
                &&& final(self)@ == step.state
                &&& messages::appended(old(actions)@, final(actions)@, step.actions)
            },
            !begun ==> (forall|id: HandshakeId| !#[trigger] id.usable(old(self)@.handshakes))
                && final(self)@ == old(self)@ && final(actions)@ == old(actions)@,
    {
        let session_id: SessionId = SessionId::generate();
        let (ephemeral_secret, _) = key_exchange::create();
        match HandshakeId::generate(&self.handshakes) {
            Some(handshake_id) => {
                let ghost secret = ephemeral_secret@;
                self.connect_with(
                    address,
                    ticket,
                    session_id,
                    handshake_id,
                    ephemeral_secret,
                    now,
                    actions,
                );
                assert(handshake_id.usable(old(self)@.handshakes));
                true
            },
            None => false,
        }
    }

    /// The application refused a session that a peer proposed.
    pub fn reject_hello(
        &self,
        packet: &HelloPacket,
        src_addr: Address,
        message: Vec<u8>,
        now: Timestamp,
        actions: &mut Vec<Action>,
    )
        ensures
            messages::appended(
                old(actions)@,
                final(actions)@,
                seq![
                    ActionView::Send {
                        packet: rejection_view(
                            packet.proposed_session_id,
                            HandshakeRejectionReason::App,
                            packet.handshake_id,
                            message@,
                            now,
                        ),
                        addr: src_addr,
                    },
                ],
            ),
    {
        let ghost acts0 = actions@;
        let reply: Box<HandshakeRejection> = HandshakeRejection::new(
            Options::none(),
            packet.proposed_session_id,
            HandshakeRejectionReason::App,
            packet.handshake_id,
            message,
            now,
        );
        let ghost view = views::PacketView::HandshakeRejection(reply@);
        assert(view =~= rejection_view(
            packet.proposed_session_id,
            HandshakeRejectionReason::App,
            packet.handshake_id,
            message@,
            now,
        ));
        messages::push_action(
            actions,
            Action::Send { packet: Packet::HandshakeRejection(reply), addr: src_addr },
        );
        assert(messages::action_views(actions@) =~= messages::action_views(acts0) + seq![
            ActionView::Send { packet: view, addr: src_addr },
        ]);
    }

    /// The application agreed to a session that a peer proposed: there is a session now
    /// that the peer has still to confirm, with the given id, and its key.
    pub fn approve_hello(
        &mut self,
        packet: HelloPacket,
        src_addr: Address,
        ticket: u64,
        session_id: SessionId,
        ephemeral_secret: EphemeralSecret,
        now: Timestamp,
        actions: &mut Vec<Action>,
    )
        requires
            old(self).wf(),
        ensures
            final(self).wf(),
            ({
                let step = old(self)@.approving(
                    packet@,
                    src_addr,
                    ticket,
                    session_id,
                    ephemeral_secret@,
                    now,
                );
                &&& final(self)@ == step.state
                &&& messages::appended(old(actions)@, final(actions)@, step.actions)
            }),
            shared(
                final(self)@.encryption[session_id.0].key,
                ephemeral_secret@,
                packet.public_key@,
            ),
    {
        let ghost before = self@;
        let ghost acts0 = actions@;
        let ghost secret = ephemeral_secret@;
        let ghost view = packet@;
        let handshake: HandshakeId = packet.handshake_id;
        self.new_session(session_id, ticket, src_addr, packet.app_id);
        let public_key: PublicKey = ephemeral_secret.public_key();
        let key: [u8; 32] = key_exchange::get_shared_secret(ephemeral_secret, packet.public_key);
        self.encryption.insert(session_id.0, EncryptionWindow::new(key));
        self.send_hello_packet(
            packets::ack_wanted(),
            session_id,
            handshake,
            public_key,
            src_addr,
            now,
            actions,
        );
        let ghost step = before.approving(view, src_addr, ticket, session_id, secret, now);
        assert(self@ =~= step.state);
        assert(messages::action_views(actions@) =~= messages::action_views(acts0) + step.actions);
    }

    /// The id of a session that a peer proposed: another one, which was drawn, if there is a
    /// session with the proposed one.
    pub fn session_for(&self, proposed: SessionId, drawn: SessionId) -> (id: SessionId)
        ensures
            id == self@.session_for_spec(proposed, drawn),
    {
        if self.session_exists(proposed) {
            drawn
        } else {
            proposed
        }
    }

    /// The application answered whether it wants a session that a peer proposed. The session
    /// has the drawn id if there is one with the proposed id.
    pub fn answer_hello_with(
        &mut self,
        packet: HelloPacket,
        src_addr: Address,
        response: AppResponse,
        ticket: u64,
        drawn: SessionId,
        ephemeral_secret: EphemeralSecret,
        now: Timestamp,
        actions: &mut Vec<Action>,
    )
        requires
            old(self).wf(),
        ensures
            final(self).wf(),
            ({
                let step = old(self)@.answering(
                    packet@,
                    src_addr,
                    response,
                    ticket,
                    drawn,
                    ephemeral_secret@,
                    now,
                );
                &&& final(self)@ == step.state
                &&& messages::appended(old(actions)@, final(actions)@, step.actions)
            }),
    {
        match response {
            AppResponse::AppRejected(message) => {
                self.reject_hello(&packet, src_addr, message, now, actions);
            },
            AppResponse::AppApproved => {
                let session_id: SessionId = self.session_for(packet.proposed_session_id, drawn);
                self.approve_hello(
                    packet,
                    src_addr,
                    ticket,
                    session_id,
                    ephemeral_secret,
                    now,
                    actions,
                );
            },
        }
    }

    /// The application answered whether it wants a session that a peer proposed. A new id
    /// is drawn at random if there is a session with the proposed one.
    pub fn answer_hello(
        &mut self,
        packet: HelloPacket,
        src_addr: Address,
        response: AppResponse,
        ticket: u64,
        now: Timestamp,
        actions: &mut Vec<Action>,
    )
        requires
            old(self).wf(),
        ensures
            final(self).wf(),
            exists|drawn: SessionId, secret: Seq<u8>| {
                let step = #[trigger] old(self)@.answering(
                    packet@,
                    src_addr,
                    response,
                    ticket,
                    drawn,
                    secret,
                    now,
                );
                &&& secret.len() == 32
                &&& final(self)@ == step.state
                &&& messages::appended(old(actions)@, final(actions)@, step.actions)
            },
    {
        let drawn: SessionId = SessionId::generate();
        let (ephemeral_secret, _) = key_exchange::create();
        self.answer_hello_with(
            packet,
            src_addr,
            response,
            ticket,
            drawn,
            ephemeral_secret,
            now,
            actions,
        );
    }

    /// The peer answered a handshake with a session that does not exist yet: it becomes
    /// one, the one who waits for it is told, and the peer gets a confirmation.
    pub fn promote_answered(
        &mut self,
        packet: HelloPacket,
        src_addr: Address,
        now: Timestamp,
        actions: &mut Vec<Action>,
    )
        requires
            old(self).wf(),
        ensures
            final(self).wf(),
            final(self)@ == old(self)@.answered(packet@, src_addr, now).state,
            messages::appended(
                old(actions)@,
                final(actions)@,
                old(self)@.answered(packet@, src_addr, now).actions,
            ),
            old(self)@.promotable(packet.proposed_session_id, packet.handshake_id) ==> shared(
                final(self)@.encryption[packet.proposed_session_id.0].key,
                old(self)@.handshakes[packet.handshake_id].secret,
                packet.public_key@,
            ),
    {
        let ghost before = self@;
        let ghost acts0 = actions@;
        let ghost view = packet@;
        let session: SessionId = packet.proposed_session_id;
        let handshake: HandshakeId = packet.handshake_id;
        match self.promote_handshake(session, src_addr, handshake, packet.app_id) {
            Some((secret, ticket)) => {
                let key: [u8; 32] = key_exchange::get_shared_secret(secret, packet.public_key);
                self.encryption.insert(session.0, EncryptionWindow::new(key));
                messages::push_action(actions, Action::Connected { ticket, session });
                messages::push_action(
                    actions,
                    Action::Send {
                        packet: Packet::HandshakeAckPacket(
                            HandshakeAckPacket::new(session, handshake, now),
                        ),
                        addr: src_addr,
                    },
                );
            },
            None => {},
        }
        assert(self@ =~= before.answered(view, src_addr, now).state);
        assert(messages::action_views(actions@) =~= messages::action_views(acts0)
            + before.answered(view, src_addr, now).actions);
    }

    /// Tells a peer that the session that it proposed exists.
    fn refuse_collision(
        &self,
        packet: &HelloPacket,
        src_addr: Address,
        now: Timestamp,
        actions: &mut Vec<Action>,
    )
        ensures
            messages::appended(
                old(actions)@,
                final(actions)@,
                seq![collision_reply(packet@, src_addr, now)],
            ),
    {
        let ghost acts0 = actions@;
        let empty: Vec<u8> = Vec::new();
        let reply: Box<HandshakeRejection> = HandshakeRejection::new(
            Options::none(),
            packet.proposed_session_id,
            HandshakeRejectionReason::IdCollision,
            packet.handshake_id,
            empty,
            now,
        );
        assert(views::PacketView::HandshakeRejection(reply@) =~= rejection_view(
            packet.proposed_session_id,
            HandshakeRejectionReason::IdCollision,
            packet.handshake_id,
            seq![],
            now,
        ));
        messages::push_action(
            actions,
            Action::Send { packet: Packet::HandshakeRejection(reply), addr: src_addr },
        );
        assert(messages::action_views(actions@) =~= messages::action_views(acts0) + seq![
            collision_reply(packet@, src_addr, now),
        ]);
    }

    /// The peer answered a handshake with a session that exists: it is told so, and the
    /// handshake begins anew with the given ids and secret.
    pub fn session_id_collided_with(
        &mut self,
        packet: &HelloPacket,
        src_addr: Address,
        session: SessionId,
        handshake: HandshakeId,
        ephemeral_secret: EphemeralSecret,
        now: Timestamp,
        actions: &mut Vec<Action>,
    )
        requires
            old(self).wf(),
            old(self)@.handshakes.dom().contains(packet.handshake_id),
        ensures
            final(self).wf(),
            ({
                let step = old(self)@.colliding(
                    packet@,
                    src_addr,
                    session,
                    handshake,
                    ephemeral_secret@,
                    now,
                );
                &&& final(self)@ == step.state
                &&& messages::appended(old(actions)@, final(actions)@, step.actions)
            }),
    {
        let ghost before = self@;
        let ghost acts0 = actions@;
        let ghost secret = ephemeral_secret@;
        self.refuse_collision(packet, src_addr, now, actions);
        let public_key: PublicKey = ephemeral_secret.public_key();
        let _ = self.reuse_handshake_as(
            packet.proposed_session_id,
            packet.handshake_id,
            ephemeral_secret,
            handshake,
        );
        self.send_hello_packet(Options::none(), session, handshake, public_key, src_addr, now, actions);
        let ghost step = before.colliding(packet@, src_addr, session, handshake, secret, now);
        assert(self@ =~= step.state);
        assert(messages::action_views(actions@) =~= messages::action_views(acts0) + step.actions);
    }

    /// The peer answered a handshake with a session that exists: it is told so, and the
    /// handshake begins anew with a secret and ids drawn at random.
    pub fn session_id_collided(
        &mut self,
        packet: &HelloPacket,
        src_addr: Address,
        now: Timestamp,
        actions: &mut Vec<Action>,
    )
        requires
            old(self).wf(),
        ensures
            final(self).wf(),
            old(self)@.handshakes.dom().contains(packet.handshake_id) ==> (exists|
                session: SessionId,
                handshake: HandshakeId,
                secret: Seq<u8>,
            | {
                let step = #[trigger] old(self)@.colliding(
                    packet@,
                    src_addr,
                    session,
                    handshake,
                    secret,
                    now,
                );
                &&& handshake.usable(old(self)@.handshakes.remove(packet.handshake_id))
                &&& secret.len() == 32
                &&& final(self)@ == step.state
                &&& messages::appended(old(actions)@, final(actions)@, step.actions)
            }) || no_id_left(
                old(self)@,
                final(self)@,
                packet@,
                src_addr,
                now,
                messages::action_views(old(actions)@),
                messages::action_views(final(actions)@),
            ),
            !old(self)@.handshakes.dom().contains(packet.handshake_id) ==> final(self)@
                == old(self)@ && messages::appended(
                old(actions)@,
                final(actions)@,
                seq![collision_reply(packet@, src_addr, now)],
            ),
    {
        let ghost before = self@;
        if !self.handshakes.contains(packet.handshake_id) {
            self.refuse_collision(packet, src_addr, now, actions);
            return;
        }
        let session: SessionId = SessionId::generate();
        let (ephemeral_secret, _) = key_exchange::create();
        match self.fresh_handshake_id(packet.handshake_id) {
            Some(handshake) => {
                self.session_id_collided_with(
                    packet,
                    src_addr,
                    session,
                    handshake,
                    ephemeral_secret,
                    now,
                    actions,
                );
            },
            None => {
                self.refuse_collision(packet, src_addr, now, actions);
                let _ = self.handshakes.take(packet.handshake_id);
                assert(self@ =~= (StateView {
                    handshakes: before.handshakes.remove(packet.handshake_id),
                    ..before
                }));
            },
        }
    }

    /// The peer answered a handshake.
    pub fn received_hello_packet_as_initializer(
        &mut self,
        packet: HelloPacket,
        src_addr: Address,
        now: Timestamp,
        actions: &mut Vec<Action>,
    )
        requires
            old(self).wf(),
        ensures
            final(self).wf(),
            self::answers(
                old(self)@,
                final(self)@,
                packet@,
                src_addr,
                now,
                messages::action_views(old(actions)@),
                messages::action_views(final(actions)@),
            ),
    {
        if self.session_exists(packet.proposed_session_id) {
            self.session_id_collided(&packet, src_addr, now, actions);
        } else {
            self.promote_answered(packet, src_addr, now, actions);
        }
    }

    /// A peer proposes a session: it answers a handshake of this peer, or the application
    /// is asked. The peer is reached at the port that its packet names.
    pub fn received_hello_packet(
        &mut self,
        packet: HelloPacket,
        src_addr: Address,
        now: Timestamp,
        actions: &mut Vec<Action>,
    )
        requires
            old(self).wf(),
        ensures
            final(self).wf(),
            old(self)@.handshakes.dom().contains(packet.handshake_id) ==> self::answers(
                old(self)@,
                final(self)@,
                packet@,
                src_addr.at_port(packet.receiving_port.0),
                now,
                messages::action_views(old(actions)@),
                messages::action_views(final(actions)@),
            ),
            !old(self)@.handshakes.dom().contains(packet.handshake_id) ==> final(self)@
                == old(self)@ && messages::appended(
                old(actions)@,
                final(actions)@,
                seq![
                    ActionView::AskApp {
                        packet: views::PacketView::Hello(packet@),
                        addr: src_addr.at_port(packet.receiving_port.0),
                    },
                ],
            ),
    {
        let addr: Address = src_addr.with_port(packet.receiving_port.0);
        if self.handshakes.contains(packet.handshake_id) {
            self.received_hello_packet_as_initializer(packet, addr, now, actions);
        } else {
            let ghost acts0 = actions@;
            let ghost view = packet@;
            messages::push_action(
                actions,
                Action::AskApp { packet: Packet::HelloPacket(Box::new(packet)), addr },
            );
            assert(messages::action_views(actions@) =~= messages::action_views(acts0) + seq![
                ActionView::AskApp { packet: views::PacketView::Hello(view), addr },
            ]);
        }
    }
}

/// What the answer to a handshake does: the state `next` after it, and what there was to do
/// before and after it.
pub open spec fn answers(
    state: StateView,
    next: StateView,
    packet: views::HelloView,
    src_addr: Address,
    now: Timestamp,
    before: Seq<ActionView>,
    after: Seq<ActionView>,
) -> bool {
    if !state.has(packet.proposed_session_id) {
        let step = state.answered(packet, src_addr, now);
        next == step.state && after == before + step.actions
    } else if state.handshakes.dom().contains(packet.handshake_id) {
        (exists|session: SessionId, handshake: HandshakeId, secret: Seq<u8>| {
            let step = #[trigger] state.colliding(
                packet,
                src_addr,
                session,
                handshake,
                secret,
                now,
            );
            &&& handshake.usable(state.handshakes.remove(packet.handshake_id))
            &&& secret.len() == 32
            &&& next == step.state
            &&& after == before + step.actions
        }) || no_id_left(state, next, packet, src_addr, now, before, after)
    } else {
        next == state && after == before + seq![collision_reply(packet, src_addr, now)]
    }
}

} // verus!
