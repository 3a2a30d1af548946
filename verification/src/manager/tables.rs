//! Who is where: the sessions at an address, and when peers were last heard of.
use vstd::prelude::*;

use crate::manager::connection::{ConnView, ConnectionStates};
use crate::error::FlatState;
use crate::manager::fields::SessionId;
use crate::manager::identity::Address;
use crate::manager::types::{ForeignTimestamp, Timestamp};
use crate::utils::table::Table;

verus! {

/// The sessions at each address.
#[derive(Debug)]
pub struct AddressSessionIdTable {
    entries: Vec<(Address, Vec<SessionId>)>,
}

spec fn listed(entries: Seq<(Address, Vec<SessionId>)>, address: Address) -> bool {
    exists|i: int| 0 <= i < entries.len() && (#[trigger] entries[i]).0 == address
}

spec fn place(entries: Seq<(Address, Vec<SessionId>)>, address: Address) -> int {
    choose|i: int| 0 <= i < entries.len() && (#[trigger] entries[i]).0 == address
}

impl View for AddressSessionIdTable {
    type V = Map<Address, Seq<SessionId>>;

    closed spec fn view(&self) -> Map<Address, Seq<SessionId>> {
        Map::new(
            |a: Address| listed(self.entries@, a),
            |a: Address| self.entries@[place(self.entries@, a)].1@,
        )
    }
}

/// A list without its item `i`, whose place the last item takes.
pub open spec fn swap_removed(list: Seq<SessionId>, i: int) -> Seq<SessionId> {
    list.update(i, list.last()).drop_last()
}

/// First place of a session in a list, from `i` on.
pub open spec fn first_place(list: Seq<SessionId>, session: SessionId, i: int) -> int
    decreases list.len() - i,
{
    if 0 <= i < list.len() && list[i] != session {
        first_place(list, session, i + 1)
    } else {
        i
    }
}

/// The sessions at each address, with one more.
pub open spec fn with_session(
    table: Map<Address, Seq<SessionId>>,
    address: Address,
    session: SessionId,
) -> Map<Address, Seq<SessionId>> {
    table.insert(
        address,
        if table.dom().contains(address) {
            table[address].push(session)
        } else {
            seq![session]
        },
    )
}

/// Whether a session is at an address.
pub open spec fn has_session(
    table: Map<Address, Seq<SessionId>>,
    address: Address,
    session: SessionId,
) -> bool {
    table.dom().contains(address) && table[address].contains(session)
}

/// The sessions at each address, without one. An address without sessions is forgotten.
pub open spec fn without_session(
    table: Map<Address, Seq<SessionId>>,
    address: Address,
    session: SessionId,
) -> Map<Address, Seq<SessionId>> {
    if !has_session(table, address, session) {
        table
    } else {
        let rest = swap_removed(table[address], first_place(table[address], session, 0));
        if rest.len() == 0 {
            table.remove(address)
        } else {
            table.insert(address, rest)
        }
    }
}

/// The first session of a list that can carry a stream.
pub open spec fn first_free(list: Seq<SessionId>, connections: Map<u64, ConnView>) -> Option<
    SessionId,
>
    decreases list.len(),
{
    if list.len() == 0 {
        None
    } else if connections.dom().contains(list.first().0) && connections[list.first().0].free() {
        Some(list.first())
    } else {
        first_free(list.drop_first(), connections)
    }
}

/// The states of the connections.
pub open spec fn conn_views(connections: Map<u64, ConnectionStates>) -> Map<u64, ConnView> {
    connections.map_values(|c: ConnectionStates| c@)
}

proof fn lemma_first_place(list: Seq<SessionId>, session: SessionId, i: int, at: int)
    requires
        0 <= i <= at < list.len(),
        list[at] == session,
        forall|k: int| i <= k < at ==> list[k] != session,
    ensures
        first_place(list, session, i) == at,
    decreases at - i,
{
    if i < at {
        lemma_first_place(list, session, i + 1, at);
    }
}

impl AddressSessionIdTable {
    /// Whether every address has one list, with sessions in it.
    pub closed spec fn wf(self) -> bool {
        &&& forall|i: int, j: int|
            0 <= i < j < self.entries@.len() ==> (#[trigger] self.entries@[i]).0 != (
            #[trigger] self.entries@[j]).0
        &&& forall|i: int|
            0 <= i < self.entries@.len() ==> (#[trigger] self.entries@[i]).1@.len() > 0
    }

    proof fn lemma_at(self, i: int)
        requires
            self.wf(),
            0 <= i < self.entries@.len(),
        ensures
            self@.dom().contains(self.entries@[i].0),
            self@[self.entries@[i].0] == self.entries@[i].1@,
    {
        let a = self.entries@[i].0;
        assert(listed(self.entries@, a));
        let p = place(self.entries@, a);
        assert(self.entries@[p].0 == self.entries@[i].0);
        if p < i {
            assert(self.entries@[p].0 != self.entries@[i].0);
        } else if i < p {
            assert(self.entries@[i].0 != self.entries@[p].0);
        }
    }

    /// No sessions.
    pub fn new() -> (t: Self)
        ensures
            t.wf(),
            t@ == Map::<Address, Seq<SessionId>>::empty(),
    {
        let t = AddressSessionIdTable { entries: Vec::new() };
        assert(t@ =~= Map::<Address, Seq<SessionId>>::empty());
        t
    }

    fn find(&self, address: Address) -> (r: Option<usize>)
        requires
            self.wf(),
        ensures
            match r {
                Some(i) => i < self.entries@.len() && self.entries@[i as int].0 == address
                    && self@.dom().contains(address) && self@[address]
                    == self.entries@[i as int].1@,
                None => !self@.dom().contains(address),
            },
    {
        let mut i: usize = 0;
        while i < self.entries.len()
            invariant
                i <= self.entries@.len(),
                self.wf(),
                forall|k: int| 0 <= k < i ==> (#[trigger] self.entries@[k]).0 != address,
            decreases self.entries.len() - i,
        {
            if self.entries[i].0 == address {
                proof {
                    self.lemma_at(i as int);
                }
                return Some(i);
            }
            i += 1;
        }
        None
    }

    /// Notes that a session is at an address.
    pub fn insert(&mut self, address: Address, session_id: SessionId)
        requires
            old(self).wf(),
        ensures
            final(self).wf(),
            final(self)@ == with_session(old(self)@, address, session_id),
    {
        let ghost before = *self;
        match self.find(address) {
            Some(i) => {
                self.entries[i].1.push(session_id);
                assert forall|k: int| 0 <= k < self.entries@.len() implies (
                #[trigger] self.entries@[k]).0 == before.entries@[k].0 by {}
                assert forall|a: Address| self@.dom().contains(a) <==> #[trigger] with_session(
                    before@,
                    address,
                    session_id,
                ).dom().contains(a) by {
                    if listed(self.entries@, a) {
                        let k = place(self.entries@, a);
                        assert(before.entries@[k].0 == a);
                    }
                    if listed(before.entries@, a) {
                        let k = place(before.entries@, a);
                        assert(self.entries@[k].0 == a);
                    }
                }
                assert forall|a: Address| #[trigger] self@.dom().contains(a) implies self@[a]
                    == with_session(before@, address, session_id)[a] by {
                    let k = place(self.entries@, a);
                    self.lemma_at(k);
                    before.lemma_at(k);
                    before.lemma_at(i as int);
                }
                assert(self@ =~= with_session(before@, address, session_id));
            },
            None => {
                let mut list: Vec<SessionId> = Vec::new();
                list.push(session_id);
                assert(list@ =~= seq![session_id]);
                self.entries.push((address, list));
                let n = self.entries.len() - 1;
                assert forall|k: int| 0 <= k < before.entries@.len() implies (
                #[trigger] self.entries@[k]) == before.entries@[k] by {}
                assert forall|k: int| 0 <= k < before.entries@.len() implies (
                #[trigger] before.entries@[k]).0 != address by {
                    if before.entries@[k].0 == address {
                        before.lemma_at(k);
                    }
                }
                assert forall|a: Address| self@.dom().contains(a) <==> #[trigger] with_session(
                    before@,
                    address,
                    session_id,
                ).dom().contains(a) by {
                    if listed(self.entries@, a) {
                        let k = place(self.entries@, a);
                        if k < before.entries@.len() {
                            assert(before.entries@[k].0 == a);
                        }
                    }
                    if listed(before.entries@, a) {
                        let k = place(before.entries@, a);
                        assert(self.entries@[k].0 == a);
                    }
                    assert(self.entries@[n as int].0 == address);
                }
                assert forall|a: Address| #[trigger] self@.dom().contains(a) implies self@[a]
                    == with_session(before@, address, session_id)[a] by {
                    let k = place(self.entries@, a);
                    self.lemma_at(k);
                    if k < before.entries@.len() {
                        before.lemma_at(k);
                    }
                }
                assert(self@ =~= with_session(before@, address, session_id));
            },
        }
    }

    /// Notes that a session is not at an address any more. Gives nothing if it was not
    /// there.
    pub fn remove(&mut self, address: Address, session_id: SessionId) -> (r: Option<SessionId>)
        requires
            old(self).wf(),
        ensures
            final(self).wf(),
            r == (if has_session(old(self)@, address, session_id) {
                Some(session_id)
            } else {
                None
            }),
            final(self)@ == without_session(old(self)@, address, session_id),
    {
        let ghost before = *self;
        let at: usize = match self.find(address) {
            Some(i) => i,
            None => {
                return None;
            },
        };
        let ghost list = self.entries@[at as int].1@;
        let mut index: usize = 0;
        let len: usize = self.entries[at].1.len();
        while index < len && self.entries[at].1[index].0 != session_id.0
            invariant
                index <= len == list.len(),
                at < self.entries@.len(),
                *self == before,
                list == self.entries@[at as int].1@,
                forall|k: int| 0 <= k < index ==> list[k] != session_id,
            decreases len - index,
        {
            index += 1;
        }
        if index == len {
            assert(!list.contains(session_id));
            return None;
        }
        assert(list[index as int] == session_id);
        proof {
            lemma_first_place(list, session_id, 0, index as int);
        }
        let _ = self.entries[at].1.swap_remove(index);
        let ghost rest = swap_removed(list, index as int);
        assert(self.entries@[at as int].1@ == rest);
        assert forall|k: int| 0 <= k < self.entries@.len() implies (#[trigger] self.entries@[k]).0
            == before.entries@[k].0 && (k != at ==> self.entries@[k] == before.entries@[k]) by {}
        if len == 1 {
            let _ = self.entries.remove(at);
            assert forall|k: int| 0 <= k < self.entries@.len() implies (
            #[trigger] self.entries@[k]) == (if k < at {
                before.entries@[k]
            } else {
                before.entries@[k + 1]
            }) by {}
            assert forall|a: Address| self@.dom().contains(a) <==> #[trigger] before@.remove(
                address,
            ).dom().contains(a) by {
                if listed(self.entries@, a) {
                    let k = place(self.entries@, a);
                    let old_k = if k < at {
                        k
                    } else {
                        k + 1
                    };
                    assert(before.entries@[old_k].0 == a);
                    if old_k < at {
                        assert(before.entries@[old_k].0 != before.entries@[at as int].0);
                    } else {
                        assert(before.entries@[at as int].0 != before.entries@[old_k].0);
                    }
                }
                if listed(before.entries@, a) && a != address {
                    let k = place(before.entries@, a);
                    let new_k = if k < at {
                        k
                    } else {
                        k - 1
                    };
                    assert(self.entries@[new_k].0 == a);
                }
            }
            assert(self.wf());
            assert forall|a: Address| #[trigger] self@.dom().contains(a) implies self@[a]
                == before@.remove(address)[a] by {
                let k = place(self.entries@, a);
                self.lemma_at(k);
                before.lemma_at(
                    if k < at {
                        k
                    } else {
                        k + 1
                    },
                );
            }
            assert(self@ =~= before@.remove(address));
        } else {
            assert(self.wf());
            assert forall|a: Address| self@.dom().contains(a) <==> #[trigger] before@.insert(
                address,
                rest,
            ).dom().contains(a) by {
                if listed(self.entries@, a) {
                    let k = place(self.entries@, a);
                    assert(before.entries@[k].0 == a);
                }
                if listed(before.entries@, a) {
                    let k = place(before.entries@, a);
                    assert(self.entries@[k].0 == a);
                }
            }
            assert forall|a: Address| #[trigger] self@.dom().contains(a) implies self@[a]
                == before@.insert(address, rest)[a] by {
                let k = place(self.entries@, a);
                self.lemma_at(k);
                before.lemma_at(k);
                self.lemma_at(at as int);
            }
            assert(self@ =~= before@.insert(address, rest));
        }
        Some(session_id)
    }

    /// Notes that a session moved. Gives nothing, and changes nothing, if it was not
    /// where it is said to come from.
    pub fn move_session(
        &mut self,
        source_address: Address,
        session_id: SessionId,
        destination_address: Address,
    ) -> (r: Option<Address>)
        requires
            old(self).wf(),
        ensures
            final(self).wf(),
            r == (if has_session(old(self)@, source_address, session_id) {
                Some(destination_address)
            } else {
                None
            }),
            final(self)@ == (if has_session(old(self)@, source_address, session_id) {
                with_session(
                    without_session(old(self)@, source_address, session_id),
                    destination_address,
                    session_id,
                )
            } else {
                old(self)@
            }),
    {
        match self.remove(source_address, session_id) {
            None => None,
            Some(_) => {
                self.insert(destination_address, session_id);
                Some(destination_address)
            },
        }
    }

    /// A session at an address that can carry a stream: the first of them.
    pub fn free_session(
        &self,
        address: Address,
        connections: &Table<u64, ConnectionStates>,
    ) -> (r: Option<SessionId>)
        requires
            self.wf(),
        ensures
            r == (if self@.dom().contains(address) {
                first_free(self@[address], conn_views(connections@))
            } else {
                None
            }),
    {
        let at: usize = match self.find(address) {
            Some(i) => i,
            None => {
                return None;
            },
        };
        let list: &Vec<SessionId> = &self.entries[at].1;
        let ghost views = conn_views(connections@);
        let mut i: usize = 0;
        assert(list@.skip(0) =~= list@);
        while i < list.len()
            invariant
                i <= list@.len(),
                views == conn_views(connections@),
                self@.dom().contains(address),
                self@[address] == list@,
                first_free(list@, views) == first_free(list@.skip(i as int), views),
            decreases list.len() - i,
        {
            let session: SessionId = list[i];
            assert(list@.skip(i as int).first() == session);
            assert(list@.skip(i as int).drop_first() =~= list@.skip(i + 1));
            match connections.get(session.0) {
                Some(connection) => {
                    let flat: FlatState = connection.flat();
                    if flat == FlatState::Up || flat == FlatState::Down {
                        return Some(session);
                    }
                },
                None => {},
            }
            i += 1;
        }
        None
    }
}

/// When peers were last heard of, on their own clocks.
#[derive(Debug)]
pub struct LastActivityTable {
    table: Table<u64, ForeignTimestamp>,
}

impl View for LastActivityTable {
    type V = Map<u64, u64>;

    closed spec fn view(&self) -> Map<u64, u64> {
        self.table@.map_values(|t: ForeignTimestamp| t.spec_get())
    }
}

impl LastActivityTable {
    /// Nobody was heard of.
    pub fn new() -> (t: Self)
        ensures
            t@ == Map::<u64, u64>::empty(),
    {
        let t = LastActivityTable { table: Table::new() };
        assert(t@ =~= Map::<u64, u64>::empty());
        t
    }

    /// Notes when the peer of a session was heard of.
    pub fn update(&mut self, session_id: SessionId, ts: Timestamp)
        ensures
            final(self)@ == old(self)@.insert(session_id.0, ts.0),
    {
        self.table.insert(session_id.0, ForeignTimestamp::new(ts.get()));
        assert(self@ =~= old(self)@.insert(session_id.0, ts.0));
    }

    /// When the peer of a session was last heard of.
    pub fn read(&self, session_id: SessionId) -> (r: Option<Timestamp>)
        ensures
            r == (if self@.dom().contains(session_id.0) {
                Some(Timestamp(self@[session_id.0]))
            } else {
                None
            }),
    {
        match self.table.get(session_id.0) {
            Some(t) => Some(t.to_timestamp()),
            None => None,
        }
    }
}

/// The address of each session.
#[derive(Debug)]
pub struct SessionAddressTable {
    table: Table<u64, Address>,
}

impl View for SessionAddressTable {
    type V = Map<u64, Address>;

    closed spec fn view(&self) -> Map<u64, Address> {
        self.table@
    }
}

impl SessionAddressTable {
    /// No sessions.
    pub fn new() -> (t: Self)
        ensures
            t@ == Map::<u64, Address>::empty(),
    {
        SessionAddressTable { table: Table::new() }
    }

    /// Whether the session has an address.
    pub fn contains(&self, id: SessionId) -> (r: bool)
        ensures
            r == self@.dom().contains(id.0),
    {
        self.table.contains(id.0)
    }

    /// Whether the session is not known to be at `address`.
    pub fn address_changed(&self, id: SessionId, address: Address) -> (r: bool)
        ensures
            r == !(self@.dom().contains(id.0) && self@[id.0] == address),
    {
        match self.table.get(id.0) {
            Some(known) => !(*known == address),
            None => true,
        }
    }

    /// Notes the host of a session. The port of a session that is known stays.
    pub fn update(&mut self, id: SessionId, address: Address) -> (now: Address)
        ensures
            now == (if old(self)@.dom().contains(id.0) {
                address.at_port(old(self)@[id.0].spec_port())
            } else {
                address
            }),
            final(self)@ == old(self)@.insert(id.0, now),
    {
        let now: Address = match self.table.get(id.0) {
            Some(known) => address.with_port(known.port()),
            None => address,
        };
        self.table.insert(id.0, now);
        now
    }
}

} // verus!
