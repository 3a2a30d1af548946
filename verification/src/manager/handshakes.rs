//! Handshakes that this peer began.
use vstd::prelude::*;

use crate::manager::fields::{HandshakeId, SessionId};
use crate::manager::identity::Address;
use crate::manager::key_exchange::EphemeralSecret;
use crate::utils::random::random_u64;
use crate::utils::table::Table;

verus! {

/// A handshake that waits for the answer of the peer. The one who waits for it holds
/// the ticket.
#[derive(Debug)]
pub struct HandshakeState {
    pub peer_address: Address,
    pub ephemeral_secret: EphemeralSecret,
    pub session_id: SessionId,
    pub ticket: u64,
}

/// A handshake, for contracts.
#[verifier::ext_equal]
pub struct HandshakeView {
    pub peer_address: Address,
    pub secret: Seq<u8>,
    pub session_id: SessionId,
    pub ticket: u64,
}

impl View for HandshakeState {
    type V = HandshakeView;

    open spec fn view(&self) -> HandshakeView {
        HandshakeView {
            peer_address: self.peer_address,
            secret: self.ephemeral_secret@,
            session_id: self.session_id,
            ticket: self.ticket,
        }
    }
}

impl HandshakeState {
    /// A handshake with the peer at `peer_address`.
    pub fn new(
        peer_address: Address,
        ephemeral_secret: EphemeralSecret,
        session_id: SessionId,
        ticket: u64,
    ) -> (h: Self)
        ensures
            h@ == (HandshakeView {
                peer_address,
                secret: ephemeral_secret@,
                session_id,
                ticket,
            }),
    {
        HandshakeState { peer_address, ephemeral_secret, session_id, ticket }
    }
}

/// The handshakes that this peer began, by id.
#[derive(Debug)]
pub struct HandshakeStateTable {
    table: Table<u64, HandshakeState>,
}

impl View for HandshakeStateTable {
    type V = Map<HandshakeId, HandshakeView>;

    closed spec fn view(&self) -> Map<HandshakeId, HandshakeView> {
        Map::new(
            |id: HandshakeId| self.table@.dom().contains(id.0 as u64),
            |id: HandshakeId| self.table@[id.0 as u64]@,
        )
    }
}

impl HandshakeStateTable {
    /// No handshakes.
    pub fn new() -> (t: Self)
        ensures
            t@ == Map::<HandshakeId, HandshakeView>::empty(),
    {
        let t = HandshakeStateTable { table: Table::new() };
        assert(t@ =~= Map::<HandshakeId, HandshakeView>::empty());
        t
    }

    /// Whether there is a handshake with this id.
    pub fn contains(&self, id: HandshakeId) -> (r: bool)
        ensures
            r == self@.dom().contains(id),
    {
        self.table.contains(id.0 as u64)
    }

    /// Begins a handshake.
    pub fn new_handshake(
        &mut self,
        handshake_id: HandshakeId,
        peer_address: Address,
        ephemeral_secret: EphemeralSecret,
        session_id: SessionId,
        ticket: u64,
    )
        ensures
            final(self)@ == old(self)@.insert(
                handshake_id,
                (HandshakeView {
                    peer_address,
                    secret: ephemeral_secret@,
                    session_id,
                    ticket,
                }),
            ),
    {
        let ghost before = self@;
        let state = HandshakeState::new(peer_address, ephemeral_secret, session_id, ticket);
        let ghost view = state@;
        self.table.insert(handshake_id.0 as u64, state);
        assert(self@ =~= before.insert(handshake_id, view));
    }

    /// Takes a handshake out.
    pub fn take(&mut self, id: HandshakeId) -> (r: Option<HandshakeState>)
        ensures
            final(self)@ == old(self)@.remove(id),
            match r {
                Some(state) => old(self)@.dom().contains(id) && state@ == old(self)@[id],
                None => !old(self)@.dom().contains(id),
            },
    {
        let ghost before = self@;
        let r: Option<HandshakeState> = self.table.remove(id.0 as u64);
        assert(self@ =~= before.remove(id));
        r
    }
}

/// How often an id is drawn before the ids are gone through one by one.
const DRAWS: u32 = 64;

impl HandshakeId {
    /// Whether a handshake can have this id.
    pub open spec fn usable(self, handshakes: Map<HandshakeId, HandshakeView>) -> bool {
        self.0 != 0 && !handshakes.dom().contains(self)
    }

    /// An id for a new handshake, drawn at random. Nothing is found only if every id is
    /// in use.
    pub fn generate(handshakes: &HandshakeStateTable) -> (r: Option<Self>)
        ensures
            match r {
                Some(id) => id.usable(handshakes@),
                None => forall|id: HandshakeId| !#[trigger] id.usable(handshakes@),
            },
    {
        let mut draws: u32 = 0;
        while draws < DRAWS
            decreases DRAWS - draws,
        {
            let id = HandshakeId((random_u64() % 0x1_0000_0000) as u32);
            if id.0 != 0 && !handshakes.contains(id) {
                return Some(id);
            }
            draws += 1;
        }
        let mut n: u32 = 1;
        while n < u32::MAX
            invariant
                1 <= n,
                forall|id: HandshakeId| id.0 < n ==> !#[trigger] id.usable(handshakes@),
            decreases u32::MAX - n,
        {
            let id = HandshakeId(n);
            if !handshakes.contains(id) {
                return Some(id);
            }
            assert forall|other: HandshakeId| other.0 < n + 1 implies !#[trigger] other.usable(
                handshakes@,
            ) by {
                if other.0 == n {
                    assert(other == id);
                }
            }
            n += 1;
        }
        let id = HandshakeId(n);
        if !handshakes.contains(id) {
            return Some(id);
        }
        assert forall|other: HandshakeId| !#[trigger] other.usable(handshakes@) by {
            if other.0 == n {
                assert(other == id);
            }
        }
        None
    }
}

impl SessionId {
    /// An id for a new session, drawn at random. Any id may come.
    pub fn generate() -> (s: Self) {
        SessionId(random_u64())
    }
}

} // verus!
