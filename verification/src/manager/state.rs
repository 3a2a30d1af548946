//! The state of the protocol: its sessions and what belongs to them.
use vstd::prelude::*;

use crate::error::{ConnectionError, ConnectionErrorView, FlatState};
use crate::manager::connection;
use crate::manager::connection::{
    ConnView, ConnectionStates, EstablishedState, EstablishedView, SessionStateView,
    SessionStates,
};
use crate::manager::fields::{
    HandshakeId, Options, PacketType, Port, SessionId, Version, CURRENT_VERSION,
};
use crate::manager::handshakes::{HandshakeState, HandshakeStateTable, HandshakeView};
use crate::manager::identity::{Address, AppId, Reserved};
use crate::manager::images::KeepAlivePacket;
use crate::manager::key_exchange::EphemeralSecret;
use crate::manager::packets::Packet;
use crate::manager::stream_state::StreamView;
use crate::manager::tables;
use crate::manager::tables::AddressSessionIdTable;
use crate::manager::types::{ForeignTimestamp, Timestamp};
use crate::manager::views;
use crate::manager::windows::{AckView, FingerprintWindow, PendingAckWindow};
use crate::packet_processor::encryption::EncryptionWindow;
use crate::packet_processor::fec::Fec;
use crate::utils::data_collection::Observation;
use crate::utils::messages;
use crate::utils::messages::{
    Action, ActionView, ConnectionEventView, InnerConnectionEvent, StreamMessage,
};
use crate::utils::table::Table;
use crate::utils::Flags;

verus! {

/// The key of a session and how many nonces were used with it, for contracts.
#[verifier::ext_equal]
pub struct KeyView {
    pub key: Seq<u8>,
    pub counter: u64,
}

/// The key of a window.
pub open spec fn key_view(window: EncryptionWindow) -> KeyView {
    KeyView { key: window.key(), counter: window.counter() }
}

/// The keys by session.
pub open spec fn key_views(windows: Map<u64, EncryptionWindow>) -> Map<u64, KeyView> {
    windows.map_values(|w: EncryptionWindow| key_view(w))
}

/// The state of the protocol, for contracts.
#[verifier::ext_equal]
pub struct StateView {
    pub app_id: Seq<u8>,
    pub port: Port,
    pub connections: Map<u64, ConnView>,
    pub handshakes: Map<HandshakeId, HandshakeView>,
    pub ack: AckView,
    pub encryption: Map<u64, KeyView>,
    pub fingerprints: Seq<(Timestamp, u128)>,
    pub address_session: Map<Address, Seq<SessionId>>,
    pub fec: Fec,
}

/// A state and what is to be done.
#[verifier::ext_equal]
pub struct StateStep {
    pub state: StateView,
    pub actions: Seq<ActionView>,
}

/// The state of the protocol.
pub struct ProtocolState {
    pub app_id: AppId,
    pub port: Port,
    pub connections: Table<u64, ConnectionStates>,
    pub handshakes: HandshakeStateTable,
    pub ack: PendingAckWindow,
    pub encryption: Table<u64, EncryptionWindow>,
    pub fingerprints: FingerprintWindow,
    pub address_session: AddressSessionIdTable,
    pub fec: Fec,
}

impl View for ProtocolState {
    type V = StateView;

    open spec fn view(&self) -> StateView {
        StateView {
            app_id: self.app_id@,
            port: self.port,
            connections: tables::conn_views(self.connections@),
            handshakes: self.handshakes@,
            ack: self.ack@,
            encryption: key_views(self.encryption@),
            fingerprints: self.fingerprints@,
            address_session: self.address_session@,
            fec: self.fec,
        }
    }
}

/// A session that was agreed on just now.
pub open spec fn established(session_id: SessionId, address: Address, app_id: Seq<u8>) -> ConnView {
    ConnView::Established(
        EstablishedView {
            session_id,
            last_activity: 0,
            state: SessionStateView::Up,
            address,
            app_id,
        },
    )
}

fn new_established(session_id: SessionId, address: Address, app_id: AppId) -> (c: ConnectionStates)
    ensures
        c@ == established(session_id, address, app_id@),
        c.wf(),
{
    ConnectionStates::Established(
        EstablishedState {
            session_id,
            last_activity: ForeignTimestamp::default(),
            state: SessionStates::Up,
            address,
            app_id,
        },
    )
}

/// What the end of the protocol tells about one connection.
pub open spec fn protocol_closed(id: u64, connection: ConnView) -> Seq<ActionView> {
    match connection {
        ConnView::Handshake { session_id, ticket, app_id, address } => seq![
            ActionView::Handshaken { session: session_id, done: false },
            ActionView::Failed { ticket, error: ConnectionErrorView::ProtocolClosed },
        ],
        ConnView::Established(e) => connection::handed_back(connection, SessionId(id)).push(
            ActionView::Notify {
                session: SessionId(id),
                news: ConnectionEventView::ProtocolClosed,
            },
        ),
    }
}

/// What the end of the protocol tells about connections, one after another.
pub open spec fn all_closed(connections: Map<u64, ConnView>, ids: Seq<u64>) -> Seq<ActionView>
    decreases ids.len(),
{
    if ids.len() == 0 {
        seq![]
    } else {
        all_closed(connections, ids.drop_last()) + protocol_closed(
            ids.last(),
            connections[ids.last()],
        )
    }
}

/// Whether `ids` are the ids of the connections, in some order.
pub open spec fn in_some_order(ids: Seq<u64>, connections: Map<u64, ConnView>) -> bool {
    &&& ids.no_duplicates()
    &&& forall|id: u64| ids.contains(id) <==> #[trigger] connections.dom().contains(id)
}

/// A sign of life.
pub open spec fn keep_alive_view(session: SessionId, now: Timestamp) -> views::PacketView {
    views::PacketView::KeepAlive(
        KeepAlivePacket {
            version: Version(CURRENT_VERSION),
            opts: Options(0),
            packet_type: PacketType::KeepAlive,
            reserved: Reserved,
            session_id: session,
            timestamp: now,
        },
    )
}

impl StateView {
    /// Whether a session exists.
    pub open spec fn has(self, session: SessionId) -> bool {
        self.connections.dom().contains(session.0)
    }

    /// The connection of a session.
    pub open spec fn conn(self, session: SessionId) -> ConnView {
        self.connections[session.0]
    }

    /// Whether a session exists and is established.
    pub open spec fn is_up(self, session: SessionId) -> bool {
        self.has(session) && self.conn(session) is Established
    }

    /// Whether a session sends a stream.
    pub open spec fn sends(self, session: SessionId) -> bool {
        self.has(session) && self.conn(session).flat() == FlatState::StreamingTo
    }

    /// Whether a session receives a stream.
    pub open spec fn receives(self, session: SessionId) -> bool {
        self.has(session) && self.conn(session).flat() == FlatState::StreamingFrom
    }

    /// The same state with another connection for a session.
    pub open spec fn with_conn(self, session: SessionId, connection: ConnView) -> StateView {
        StateView { connections: self.connections.insert(session.0, connection), ..self }
    }

    /// The same state with a session at an address.
    pub open spec fn placed(self, address: Address, session: SessionId) -> StateView {
        StateView {
            address_session: tables::with_session(self.address_session, address, session),
            ..self
        }
    }

    /// Whether a handshake can become the given session.
    pub open spec fn promotable(self, session: SessionId, id: HandshakeId) -> bool {
        self.handshakes.dom().contains(id) && !self.has(session)
    }

    /// The state after a handshake was answered. The session goes by the id that the peer
    /// sent back.
    pub open spec fn promoted(
        self,
        session: SessionId,
        address: Address,
        id: HandshakeId,
        app_id: Seq<u8>,
    ) -> StateView {
        let taken = StateView { handshakes: self.handshakes.remove(id), ..self };
        if self.promotable(session, id) {
            taken.with_conn(session, established(session, address, app_id)).placed(
                address,
                session,
            )
        } else {
            taken
        }
    }

    /// The state after a handshake began anew under another id.
    pub open spec fn reused(
        self,
        session: SessionId,
        id: HandshakeId,
        secret: Seq<u8>,
        new_id: HandshakeId,
    ) -> StateView {
        if self.handshakes.dom().contains(id) {
            StateView {
                handshakes: self.handshakes.remove(id).insert(
                    new_id,
                    HandshakeView { secret, session_id: session, ..self.handshakes[id] },
                ),
                ..self
            }
        } else {
            self
        }
    }

    /// The state after a peer confirmed a session.
    pub open spec fn confirmed(self, session: SessionId) -> StateView {
        if !self.has(session) {
            self
        } else {
            match self.conn(session) {
                ConnView::Handshake { session_id, ticket, app_id, address } => StateView {
                    connections: self.connections.remove(session.0).insert(
                        session_id.0,
                        established(session_id, address, app_id),
                    ),
                    ..self
                },
                ConnView::Established(_) => self,
            }
        }
    }

    /// What the confirmation of a session tells.
    pub open spec fn confirmation(self, session: SessionId) -> Seq<ActionView> {
        if !self.has(session) {
            seq![]
        } else {
            match self.conn(session) {
                ConnView::Handshake { session_id, ticket, app_id, address } => seq![
                    ActionView::Connected { ticket, session: session_id },
                    ActionView::Handshaken { session: session_id, done: true },
                ],
                ConnView::Established(_) => seq![],
            }
        }
    }

    /// The state with a session that the peer has still to confirm.
    pub open spec fn with_session(
        self,
        session: SessionId,
        ticket: u64,
        address: Address,
        app_id: Seq<u8>,
    ) -> StateView {
        if self.has(session) {
            self
        } else {
            self.with_conn(
                session,
                ConnView::Handshake { session_id: session, ticket, app_id, address },
            ).placed(address, session)
        }
    }

    /// The state without a session.
    pub open spec fn without(self, session: SessionId) -> StateView {
        if !self.has(session) {
            self
        } else {
            let address = self.conn(session).addr();
            StateView {
                connections: self.connections.remove(session.0),
                address_session: tables::without_session(self.address_session, address, session),
                encryption: if tables::has_session(self.address_session, address, session) {
                    self.encryption.remove(session.0)
                } else {
                    self.encryption
                },
                ..self
            }
        }
    }

    /// What the end of a session tells.
    pub open spec fn farewell(self, session: SessionId) -> Seq<ActionView> {
        if !self.has(session) {
            seq![]
        } else {
            (match self.conn(session) {
                ConnView::Handshake { session_id, ticket, app_id, address } => seq![
                    ActionView::Failed { ticket, error: ConnectionErrorView::SessionClosedByPeer },
                ],
                ConnView::Established(_) => connection::handed_back(self.conn(session), session),
            }).push(ActionView::Observe(Observation::SessionClosed { session }))
        }
    }

    /// Whether a session carries a stream.
    pub open spec fn streams(self, session: SessionId) -> bool {
        self.has(session) && self.conn(session).streams()
    }

    /// The state after the stream of a session was closed.
    pub open spec fn stream_closed(self, session: SessionId) -> StateView {
        if self.streams(session) {
            self.with_conn(session, self.conn(session).with_state(SessionStateView::Up))
        } else {
            self
        }
    }

    /// What the end of a stream tells.
    pub open spec fn stream_end(self, session: SessionId) -> Seq<ActionView> {
        if self.streams(session) {
            connection::close_views(self.conn(session).stream(), session).push(
                ActionView::Observe(Observation::SessionClosed { session }),
            )
        } else {
            seq![]
        }
    }

    /// How the stream of a session is doing.
    pub open spec fn message(self, session: SessionId) -> StreamMessage {
        self.conn(session).stream().message
    }

    /// The state with another message for the stream of a session.
    pub open spec fn with_message(self, session: SessionId, message: StreamMessage) -> StateView {
        self.with_conn(
            session,
            self.conn(session).with_state(
                SessionStateView::Streaming(StreamView { message, ..self.conn(session).stream() }),
            ),
        )
    }

    /// Whether the peer of a session can be said to be somewhere else.
    pub open spec fn movable(self, session: SessionId, new: Address) -> bool {
        &&& self.has(session)
        &&& self.conn(session).addr() != new
        &&& tables::has_session(self.address_session, self.conn(session).addr(), session)
    }

    /// The state after the peer of a session moved.
    pub open spec fn moved(self, session: SessionId, new: Address) -> StateView {
        if self.movable(session, new) {
            StateView {
                address_session: tables::with_session(
                    tables::without_session(
                        self.address_session,
                        self.conn(session).addr(),
                        session,
                    ),
                    new,
                    session,
                ),
                ..self.with_conn(session, self.conn(session).at(new))
            }
        } else {
            self
        }
    }
}

impl ProtocolState {
    /// The invariants of everything in the state.
    pub open spec fn wf(self) -> bool {
        &&& forall|id: u64| #[trigger]
            self.connections@.dom().contains(id) ==> self.connections@[id].wf()
        &&& self.ack@.wf()
        &&& self.fingerprints.wf()
        &&& self.address_session.wf()
        &&& self.fec.wf()
    }

    /// A protocol without sessions.
    pub fn new(port: Port, app_id: AppId) -> (s: Self)
        ensures
            s.wf(),
            s@.app_id == app_id@,
            s@.port == port,
            s@.connections == Map::<u64, ConnView>::empty(),
            s@.handshakes == Map::<HandshakeId, HandshakeView>::empty(),
            s@.ack == (AckView { pending: Map::empty(), queue: seq![], canceled: false }),
            s@.encryption == Map::<u64, KeyView>::empty(),
            s@.fingerprints == Seq::<(Timestamp, u128)>::empty(),
            s@.address_session == Map::<Address, Seq<SessionId>>::empty(),
            s@.fec.is_idle(),
    {
        let s = ProtocolState {
            app_id,
            port,
            connections: Table::new(),
            handshakes: HandshakeStateTable::new(),
            ack: PendingAckWindow::new(),
            encryption: Table::new(),
            fingerprints: FingerprintWindow::default(),
            address_session: AddressSessionIdTable::new(),
            fec: Fec::new(),
        };
        assert(s@.connections =~= Map::<u64, ConnView>::empty());
        assert(s@.encryption =~= Map::<u64, KeyView>::empty());
        s
    }

    /// Whether a session exists.
    pub fn session_exists(&self, session_id: SessionId) -> (r: bool)
        ensures
            r == self@.has(session_id),
    {
        self.connections.contains(session_id.0)
    }

    /// Makes a session of a handshake that the peer at `address` answered. Gives the
    /// secret of the handshake and the ticket of the one who waits for it. Nothing comes
    /// of a handshake that is not known, or if the session exists.
    pub fn promote_handshake(
        &mut self,
        new_session_id: SessionId,
        address: Address,
        handshake_id: HandshakeId,
        app_id: AppId,
    ) -> (r: Option<(EphemeralSecret, u64)>)
        requires
            old(self).wf(),
        ensures
            final(self).wf(),
            final(self)@ == old(self)@.promoted(new_session_id, address, handshake_id, app_id@),
            match r {
                Some((secret, ticket)) => old(self)@.promotable(new_session_id, handshake_id)
                    && secret@ == old(self)@.handshakes[handshake_id].secret && ticket
                    == old(self)@.handshakes[handshake_id].ticket,
                None => !old(self)@.promotable(new_session_id, handshake_id),
            },
    {
        let ghost before = self@;
        let state: HandshakeState = match self.handshakes.take(handshake_id) {
            Some(state) => state,
            None => {
                assert(self@ =~= before.promoted(new_session_id, address, handshake_id, app_id@));
                return None;
            },
        };
        if self.connections.contains(new_session_id.0) {
            return None;
        }
        let ghost id_view = app_id@;
        let connection: ConnectionStates = new_established(new_session_id, address, app_id);
        self.connections.insert(new_session_id.0, connection);
        self.address_session.insert(address, new_session_id);
        assert(self@ =~= before.promoted(new_session_id, address, handshake_id, id_view));
        Some((state.ephemeral_secret, state.ticket))
    }

    /// An id for a handshake that takes the place of another one, drawn at random. Nothing
    /// is found only if every id is in use.
    pub fn fresh_handshake_id(&self, instead_of: HandshakeId) -> (r: Option<HandshakeId>)
        ensures
            match r {
                Some(id) => id.usable(self@.handshakes.remove(instead_of)),
                None => forall|id: HandshakeId| !#[trigger] id.usable(
                    self@.handshakes.remove(instead_of),
                ),
            },
    {
        match HandshakeId::generate(&self.handshakes) {
            Some(id) => Some(id),
            None => {
                if instead_of.0 != 0 && self.handshakes.contains(instead_of) {
                    return Some(instead_of);
                }
                assert forall|id: HandshakeId| !#[trigger] id.usable(
                    self@.handshakes.remove(instead_of),
                ) by {
                    assert(!id.usable(self@.handshakes));
                }
                None
            },
        }
    }

    /// Begins a handshake anew, for another session, under another id. Says whether there
    /// is such a handshake.
    pub fn reuse_handshake_as(
        &mut self,
        session_id: SessionId,
        handshake_id: HandshakeId,
        ephemeral_secret: EphemeralSecret,
        new_id: HandshakeId,
    ) -> (r: bool)
        requires
            old(self).wf(),
        ensures
            final(self).wf(),
            r == old(self)@.handshakes.dom().contains(handshake_id),
            final(self)@ == old(self)@.reused(
                session_id,
                handshake_id,
                ephemeral_secret@,
                new_id,
            ),
    {
        let ghost before = self@;
        let ghost secret = ephemeral_secret@;
        match self.handshakes.take(handshake_id) {
            Some(state) => {
                self.handshakes.new_handshake(
                    new_id,
                    state.peer_address,
                    ephemeral_secret,
                    session_id,
                    state.ticket,
                );
                assert(self@ =~= before.reused(session_id, handshake_id, secret, new_id));
                true
            },
            None => {
                assert(self@ =~= before);
                false
            },
        }
    }

    /// Begins a handshake anew, for another session, under an id that is not in use.
    pub fn reuse_handshake(
        &mut self,
        session_id: SessionId,
        handshake_id: HandshakeId,
        ephemeral_secret: EphemeralSecret,
    ) -> (r: Option<HandshakeId>)
        requires
            old(self).wf(),
        ensures
            final(self).wf(),
            match r {
                Some(new_id) => {
                    &&& old(self)@.handshakes.dom().contains(handshake_id)
                    &&& new_id.usable(old(self)@.handshakes.remove(handshake_id))
                    &&& final(self)@ == old(self)@.reused(
                        session_id,
                        handshake_id,
                        ephemeral_secret@,
                        new_id,
                    )
                },
                None => !old(self)@.handshakes.dom().contains(handshake_id) && final(self)@
                    == old(self)@ || (forall|id: HandshakeId| !#[trigger] id.usable(
                    old(self)@.handshakes.remove(handshake_id),
                )) && final(self)@ == (StateView {
                    handshakes: old(self)@.handshakes.remove(handshake_id),
                    ..old(self)@
                }),
            },
    {
        if !self.handshakes.contains(handshake_id) {
            return None;
        }
        match self.fresh_handshake_id(handshake_id) {
            Some(new_id) => {
                let _ = self.reuse_handshake_as(
                    session_id,
                    handshake_id,
                    ephemeral_secret,
                    new_id,
                );
                Some(new_id)
            },
            None => {
                let ghost before = self@;
                let _ = self.handshakes.take(handshake_id);
                assert(self@ =~= (StateView {
                    handshakes: before.handshakes.remove(handshake_id),
                    ..before
                }));
                None
            },
        }
    }

    /// The peer confirmed a session: it is established, and those who wait are told.
    pub fn handshake_done(&mut self, session_id: SessionId, actions: &mut Vec<Action>)
        requires
            old(self).wf(),
        ensures
            final(self).wf(),
            final(self)@ == old(self)@.confirmed(session_id),
            messages::appended(
                old(actions)@,
                final(actions)@,
                old(self)@.confirmation(session_id),
            ),
    {
        let ghost before = self@;
        let ghost acts0 = actions@;
        match self.connections.remove(session_id.0) {
            None => {
                assert(self@ =~= before);
            },
            Some(connection) => match connection {
                ConnectionStates::Handshake { session_id: id, ticket, app_id, address } => {
                    let ghost id_view = app_id@;
                    let connection: ConnectionStates = new_established(id, address, app_id);
                    self.connections.insert(id.0, connection);
                    messages::push_action(actions, Action::Connected { ticket, session: id });
                    messages::push_action(actions, Action::Handshaken { session: id, done: true });
                    assert(self@ =~= before.confirmed(session_id));
                },
                ConnectionStates::Established(established) => {
                    self.connections.insert(
                        session_id.0,
                        ConnectionStates::Established(established),
                    );
                    assert(self@ =~= before);
                },
            },
        }
        assert(messages::action_views(actions@) =~= messages::action_views(acts0)
            + before.confirmation(session_id));
    }

    /// Begins a session that the peer has still to confirm. A session that exists stays
    /// as it is.
    pub fn new_session(
        &mut self,
        session_id: SessionId,
        ticket: u64,
        address: Address,
        app_id: AppId,
    )
        requires
            old(self).wf(),
        ensures
            final(self).wf(),
            final(self)@ == old(self)@.with_session(session_id, ticket, address, app_id@),
    {
        let ghost before = self@;
        let ghost id_view = app_id@;
        if self.connections.contains(session_id.0) {
            return;
        }
        self.connections.insert(
            session_id.0,
            ConnectionStates::Handshake { session_id, ticket, app_id, address },
        );
        self.address_session.insert(address, session_id);
        assert(self@ =~= before.with_session(session_id, ticket, address, id_view));
    }

    /// The protocol is closed: every session ends, and those concerned are told.
    pub fn advertise_closed(&mut self, actions: &mut Vec<Action>)
        requires
            old(self).wf(),
        ensures
            final(self).wf(),
            final(self)@ == (StateView { connections: Map::empty(), ..old(self)@ }),
            exists|ids: Seq<u64>| #[trigger]
                in_some_order(ids, old(self)@.connections) && messages::appended(
                    old(actions)@,
                    final(actions)@,
                    all_closed(old(self)@.connections, ids),
                ),
    {
        let ghost before = self@;
        let ghost acts0 = actions@;
        let ids: Vec<u64> = self.connections.keys();
        let ghost conns = self.connections@;
        let mut i: usize = 0;
        assert(ids@.take(0) =~= seq![]);
        assert forall|j: int| 0 <= j < ids@.len() implies self.connections@.dom().contains(
            #[trigger] ids@[j],
        ) by {
            assert(ids@.contains(ids@[j]));
        }
        while i < ids.len()
            invariant
                i <= ids@.len(),
                ids@.no_duplicates(),
                forall|id: u64| ids@.contains(id) <==> conns.dom().contains(id),
                before.connections == tables::conn_views(conns),
                self@ == (StateView { connections: self@.connections, ..before }),
                self.wf(),
                forall|id: u64| #[trigger]
                    self.connections@.dom().contains(id) ==> conns.dom().contains(id)
                        && self.connections@[id] == conns[id],
                forall|j: int|
                    i <= j < ids@.len() ==> self.connections@.dom().contains(#[trigger] ids@[j]),
                forall|j: int|
                    0 <= j < i ==> !self.connections@.dom().contains(#[trigger] ids@[j]),
                messages::action_views(actions@) =~= messages::action_views(acts0) + all_closed(
                    before.connections,
                    ids@.take(i as int),
                ),
            decreases ids.len() - i,
        {
            let id: u64 = ids[i];
            assert(ids@.contains(ids@[i as int]));
            assert(ids@.take(i + 1).drop_last() =~= ids@.take(i as int));
            assert(ids@.take(i + 1).last() == id);
            assert(before.connections[id] == conns[id]@);
            assert(self.connections@.dom().contains(ids@[i as int]));
            match self.connections.remove(id) {
                Some(connection) => match connection {
                    ConnectionStates::Handshake { session_id, ticket, app_id: _, address: _ } => {
                        messages::push_action(
                            actions,
                            Action::Handshaken { session: session_id, done: false },
                        );
                        messages::push_action(
                            actions,
                            Action::Failed { ticket, error: ConnectionError::ProtocolClosed },
                        );
                    },
                    ConnectionStates::Established(_) => {
                        connection.hand_back(SessionId(id), actions);
                        messages::push_action(
                            actions,
                            Action::Notify {
                                session: SessionId(id),
                                news: InnerConnectionEvent::ProtocolClosed,
                            },
                        );
                    },
                },
                None => {},
            }
            i += 1;
        }
        assert(ids@.take(ids@.len() as int) =~= ids@);
        assert(in_some_order(ids@, before.connections));
        assert forall|id: u64| !self.connections@.dom().contains(id) by {
            if conns.dom().contains(id) {
                assert(ids@.contains(id));
                let j = ids@.index_of(id);
                assert(!self.connections@.dom().contains(ids@[j]));
            }
        }
        assert(self@.connections =~= Map::<u64, ConnView>::empty());
    }

    /// Ends a session: its place and its key are forgotten, and those concerned are told.
    pub fn close_session(&mut self, session_id: SessionId, actions: &mut Vec<Action>)
        requires
            old(self).wf(),
        ensures
            final(self).wf(),
            final(self)@ == old(self)@.without(session_id),
            messages::appended(old(actions)@, final(actions)@, old(self)@.farewell(session_id)),
    {
        let ghost before = self@;
        let ghost acts0 = actions@;
        let connection: ConnectionStates = match self.connections.remove(session_id.0) {
            Some(connection) => connection,
            None => {
                assert(self@ =~= before);
                assert(messages::action_views(actions@) =~= messages::action_views(acts0)
                    + before.farewell(session_id));
                return;
            },
        };
        let address: Address = connection.address();
        match connection {
            ConnectionStates::Handshake { session_id: _, ticket, app_id: _, address: _ } => {
                messages::push_action(
                    actions,
                    Action::Failed { ticket, error: ConnectionError::SessionClosedByPeer },
                );
            },
            ConnectionStates::Established(_) => {
                connection.hand_back(session_id, actions);
            },
        }
        messages::push_action(
            actions,
            Action::Observe(Observation::SessionClosed { session: session_id }),
        );
        match self.address_session.remove(address, session_id) {
            Some(_) => {
                let _ = self.encryption.remove(session_id.0);
            },
            None => {},
        }
        assert(self@ =~= before.without(session_id));
        assert(messages::action_views(actions@) =~= messages::action_views(acts0)
            + before.farewell(session_id));
    }

    /// Closes the stream of a session, which stays.
    pub fn close_stream(&mut self, session_id: SessionId, actions: &mut Vec<Action>)
        requires
            old(self).wf(),
        ensures
            final(self).wf(),
            final(self)@ == old(self)@.stream_closed(session_id),
            messages::appended(old(actions)@, final(actions)@, old(self)@.stream_end(session_id)),
    {
        let ghost before = self@;
        let ghost acts0 = actions@;
        match self.connections.remove(session_id.0) {
            Some(mut connection) => {
                let flat = connection.flat();
                if flat == FlatState::StreamingTo || flat
                    == FlatState::StreamingFrom {
                    connection.close_stream(session_id, actions);
                    messages::push_action(
                        actions,
                        Action::Observe(Observation::SessionClosed { session: session_id }),
                    );
                }
                self.connections.insert(session_id.0, connection);
            },
            None => {},
        }
        assert(self@ =~= before.stream_closed(session_id));
        assert(messages::action_views(actions@) =~= messages::action_views(acts0)
            + before.stream_end(session_id));
    }

    /// How the stream of a session is doing, if it carries one.
    pub fn stream_message(&self, session_id: SessionId) -> (r: Option<StreamMessage>)
        ensures
            r == (if self@.streams(session_id) {
                Some(self@.message(session_id))
            } else {
                None
            }),
    {
        match self.connections.get(session_id.0) {
            Some(ConnectionStates::Established(established)) => match &established.state {
                SessionStates::Streaming(stream) => Some(stream.message),
                _ => None,
            },
            _ => None,
        }
    }

    /// Changes how the stream of a session is doing, and tells the application.
    pub fn set_message(
        &mut self,
        session_id: SessionId,
        message: StreamMessage,
        actions: &mut Vec<Action>,
    )
        requires
            old(self).wf(),
            old(self)@.streams(session_id),
        ensures
            final(self).wf(),
            final(self)@ == old(self)@.with_message(session_id, message),
            messages::appended(
                old(actions)@,
                final(actions)@,
                seq![ActionView::Publish { session: session_id, message }],
            ),
    {
        let ghost before = self@;
        let ghost acts0 = actions@;
        match self.connections.remove(session_id.0) {
            Some(mut connection) => {
                match &mut connection {
                    ConnectionStates::Handshake { .. } => {},
                    ConnectionStates::Established(established) => match &mut established.state {
                        SessionStates::Streaming(stream) => {
                            stream.message = message;
                        },
                        _ => {},
                    },
                }
                self.connections.insert(session_id.0, connection);
            },
            None => {},
        }
        messages::push_action(actions, Action::Publish { session: session_id, message });
        assert(self@ =~= before.with_message(session_id, message));
        assert(messages::action_views(actions@) =~= messages::action_views(acts0) + seq![
            ActionView::Publish { session: session_id, message },
        ]);
    }

    /// Where the peer of a session is, if the session is established.
    pub fn established_address(&self, session_id: SessionId) -> (r: Option<Address>)
        ensures
            r == (if self@.is_up(session_id) {
                Some(self@.conn(session_id).addr())
            } else {
                None
            }),
    {
        match self.connections.get(session_id.0) {
            Some(ConnectionStates::Established(established)) => Some(established.address),
            _ => None,
        }
    }

    /// Takes note of where the peer of a session is. Gives the address if it is new.
    pub fn update_address(
        &mut self,
        session_id: SessionId,
        new: Address,
        actions: &mut Vec<Action>,
    ) -> (r: Option<Address>)
        requires
            old(self).wf(),
        ensures
            final(self).wf(),
            final(self)@ == old(self)@.moved(session_id, new),
            r == (if old(self)@.movable(session_id, new) {
                Some(new)
            } else {
                None
            }),
            messages::appended(
                old(actions)@,
                final(actions)@,
                if old(self)@.movable(session_id, new) {
                    seq![ActionView::Observe(Observation::AddressRebind { session: session_id })]
                } else {
                    seq![]
                },
            ),
    {
        let ghost before = self@;
        let ghost acts0 = actions@;
        assert(messages::action_views(actions@) =~= messages::action_views(acts0) + seq![]);
        let curr: Address = match self.connections.get(session_id.0) {
            Some(connection) => connection.address(),
            None => {
                return None;
            },
        };
        if new == curr {
            return None;
        }
        match self.address_session.move_session(curr, session_id, new) {
            Some(_) => {},
            None => {
                return None;
            },
        }
        match self.connections.remove(session_id.0) {
            Some(mut connection) => {
                connection.update_address(new);
                self.connections.insert(session_id.0, connection);
            },
            None => {},
        }
        messages::push_action(
            actions,
            Action::Observe(Observation::AddressRebind { session: session_id }),
        );
        assert(self@ =~= before.moved(session_id, new));
        assert(messages::action_views(actions@) =~= messages::action_views(acts0) + seq![
            ActionView::Observe(Observation::AddressRebind { session: session_id }),
        ]);
        Some(new)
    }

    /// Gives the peer of a session a sign of life. Says whether the session still exists.
    pub fn send_keep_alive_on_session(
        &self,
        session_id: SessionId,
        now: Timestamp,
        actions: &mut Vec<Action>,
    ) -> (r: bool)
        ensures
            r == self@.has(session_id),
            messages::appended(
                old(actions)@,
                final(actions)@,
                if self@.has(session_id) {
                    seq![
                        ActionView::Send {
                            packet: keep_alive_view(session_id, now),
                            addr: self@.conn(session_id).addr(),
                        },
                    ]
                } else {
                    seq![]
                },
            ),
    {
        let ghost acts0 = actions@;
        match self.connections.get(session_id.0) {
            Some(connection) => {
                let addr: Address = connection.address();
                let packet = Packet::KeepAlivePacket(
                    KeepAlivePacket::new(Options::none(), session_id, now),
                );
                assert(packet@ == keep_alive_view(session_id, now));
                messages::push_action(actions, Action::Send { packet, addr });
                assert(messages::action_views(actions@) =~= messages::action_views(acts0) + seq![
                    ActionView::Send { packet: packet@, addr },
                ]);
                true
            },
            None => {
                assert(messages::action_views(actions@) =~= messages::action_views(acts0) + seq![]);
                false
            },
        }
    }
}

} // verus!
