//! What becomes of batches that cannot be recovered: what they miss is asked for again.
use vstd::prelude::*;

use crate::manager::connection::{ConnectionStates, SessionStateView, SessionStates};
use crate::manager::fields::{BytePosition, SessionId};
use crate::manager::identity::Address;
use crate::manager::ranges;
use crate::manager::ranges::ByteRange;
use crate::manager::requests;
use crate::manager::session_fec::PACKET_DISCARD_TIME_MS;
use crate::manager::state::{ProtocolState, StateStep, StateView};
use crate::manager::stream_state::{StreamView, Streaming, StreamingView};
use crate::manager::types::Timestamp;
use crate::packet_processor::fec::pruning::Pruned;
use crate::utils::data_collection::Observation;
use crate::utils::messages;
use crate::utils::messages::{Action, ActionView};

verus! {

/// Time between two sweeps over the batches, in milliseconds.
pub const FEC_SWEEP_INTERVAL_MS: u64 = 100;

/// One observation for each batch that misses something.
pub open spec fn unrecoverable(pruned: Seq<Pruned>) -> Seq<ActionView>
    decreases pruned.len(),
{
    if pruned.len() == 0 {
        seq![]
    } else {
        let before = unrecoverable(pruned.drop_last());
        if pruned.last().2@.len() == 0 {
            before
        } else {
            before.push(
                ActionView::Observe(Observation::BatchUnrecoverable { session: pruned.last().0 }),
            )
        }
    }
}

/// The sessions with batches that miss something, each of them once.
pub open spec fn affected(pruned: Seq<Pruned>) -> Seq<SessionId>
    decreases pruned.len(),
{
    if pruned.len() == 0 {
        seq![]
    } else {
        let before = affected(pruned.drop_last());
        if pruned.last().2@.len() == 0 || before.contains(pruned.last().0) {
            before
        } else {
            before.push(pruned.last().0)
        }
    }
}

/// What the batches of a session miss.
pub open spec fn missed_by(pruned: Seq<Pruned>, session: SessionId) -> Seq<BytePosition>
    decreases pruned.len(),
{
    if pruned.len() == 0 {
        seq![]
    } else if pruned.last().0 == session {
        missed_by(pruned.drop_last(), session) + pruned.last().2@
    } else {
        missed_by(pruned.drop_last(), session)
    }
}

impl StateView {
    /// The state after a session asked for `positions` again, and what that tells and
    /// sends.
    pub open spec fn asking(
        self,
        session: SessionId,
        positions: Seq<BytePosition>,
        now: Timestamp,
    ) -> StateStep {
        if self.receives(session) {
            let stream = self.conn(session).stream();
            let from = stream.streaming->From_0;
            StateStep {
                state: self.with_conn(
                    session,
                    self.conn(session).with_state(
                        SessionStateView::Streaming(
                            StreamView {
                                streaming: StreamingView::From(from.after_reserve(positions, now)),
                                ..stream
                            },
                        ),
                    ),
                ),
                actions: from.reserve(positions, now).observed(from.session_id)
                    + requests::retransmit_sends(
                    session,
                    self.conn(session).addr(),
                    ranges::coalesced(from.reserve(positions, now).accepted),
                    now,
                ),
            }
        } else {
            StateStep { state: self, actions: seq![] }
        }
    }

    /// The state after each of the sessions asked again for what its batches miss.
    pub open spec fn asking_all(
        self,
        sessions: Seq<SessionId>,
        pruned: Seq<Pruned>,
        now: Timestamp,
    ) -> StateStep
        decreases sessions.len(),
    {
        if sessions.len() == 0 {
            StateStep { state: self, actions: seq![] }
        } else {
            let before = self.asking_all(sessions.drop_last(), pruned, now);
            let step = before.state.asking(
                sessions.last(),
                missed_by(pruned, sessions.last()),
                now,
            );
            StateStep { actions: before.actions + step.actions, ..step }
        }
    }

    /// The state after batches were given up.
    pub open spec fn given_up(self, pruned: Seq<Pruned>, now: Timestamp) -> StateStep {
        let step = self.asking_all(affected(pruned), pruned, now);
        StateStep { actions: unrecoverable(pruned) + step.actions, ..step }
    }
}

fn note_unrecoverable(pruned: &Vec<Pruned>, actions: &mut Vec<Action>) -> (sessions: Vec<SessionId>)
    ensures
        sessions@ == affected(pruned@),
        messages::appended(old(actions)@, final(actions)@, unrecoverable(pruned@)),
{
    let ghost acts0 = actions@;
    let mut sessions: Vec<SessionId> = Vec::new();
    let mut i: usize = 0;
    assert(pruned@.take(0) =~= seq![]);
    while i < pruned.len()
        invariant
            i <= pruned@.len(),
            sessions@ == affected(pruned@.take(i as int)),
            messages::action_views(actions@) =~= messages::action_views(acts0) + unrecoverable(
                pruned@.take(i as int),
            ),
        decreases pruned.len() - i,
    {
        assert(pruned@.take(i + 1).drop_last() =~= pruned@.take(i as int));
        assert(pruned@.take(i + 1).last() == pruned@[i as int]);
        if pruned[i].2.len() > 0 {
            let session: SessionId = pruned[i].0;
            messages::push_action(
                actions,
                Action::Observe(Observation::BatchUnrecoverable { session }),
            );
            let mut known: bool = false;
            let mut j: usize = 0;
            while j < sessions.len()
                invariant
                    j <= sessions@.len(),
                    known <==> exists|k: int| 0 <= k < j && sessions@[k] == session,
                decreases sessions.len() - j,
            {
                if sessions[j].0 == session.0 {
                    known = true;
                    assert(sessions@[j as int] == session);
                }
                j += 1;
            }
            assert(known <==> sessions@.contains(session));
            if !known {
                sessions.push(session);
            }
        }
        i += 1;
    }
    assert(pruned@.take(pruned@.len() as int) =~= pruned@);
    sessions
}

fn collect_missed(pruned: &Vec<Pruned>, session: SessionId) -> (positions: Vec<BytePosition>)
    ensures
        positions@ == missed_by(pruned@, session),
{
    let mut positions: Vec<BytePosition> = Vec::new();
    let mut i: usize = 0;
    assert(pruned@.take(0) =~= seq![]);
    while i < pruned.len()
        invariant
            i <= pruned@.len(),
            positions@ == missed_by(pruned@.take(i as int), session),
        decreases pruned.len() - i,
    {
        assert(pruned@.take(i + 1).drop_last() =~= pruned@.take(i as int));
        assert(pruned@.take(i + 1).last() == pruned@[i as int]);
        if pruned[i].0.0 == session.0 {
            let ghost before = positions@;
            let list: &Vec<BytePosition> = &pruned[i].2;
            let mut j: usize = 0;
            while j < list.len()
                invariant
                    j <= list@.len(),
                    positions@ =~= before + list@.take(j as int),
                decreases list.len() - j,
            {
                positions.push(list[j]);
                j += 1;
            }
            assert(list@.take(list@.len() as int) =~= list@);
        }
        i += 1;
    }
    assert(pruned@.take(pruned@.len() as int) =~= pruned@);
    positions
}

impl ProtocolState {
    /// Asks again for `positions` of the stream that a session receives.
    pub fn ask_again(
        &mut self,
        session_id: SessionId,
        positions: Vec<BytePosition>,
        now: Timestamp,
        actions: &mut Vec<Action>,
    )
        requires
            old(self).wf(),
        ensures
            final(self).wf(),
            final(self)@ == old(self)@.asking(session_id, positions@, now).state,
            messages::appended(
                old(actions)@,
                final(actions)@,
                old(self)@.asking(session_id, positions@, now).actions,
            ),
    {
        let ghost before = self@;
        let ghost acts0 = actions@;
        let ghost wanted = positions@;
        match self.connections.remove(session_id.0) {
            Some(mut connection) => {
                let address: Address = connection.address();
                match &mut connection {
                    ConnectionStates::Handshake { .. } => {},
                    ConnectionStates::Established(established) => match &mut established.state {
                        SessionStates::Streaming(stream) => match &mut stream.streaming {
                            Streaming::From(from) => {
                                let accepted: Vec<BytePosition> = from.reserve_for_request(
                                    positions,
                                    now,
                                    actions,
                                );
                                let wanted_ranges: Vec<ByteRange> =
                                    ranges::coalesce_byte_positions(accepted);
                                requests::dispatch_retransmit_request(
                                    session_id,
                                    address,
                                    wanted_ranges,
                                    now,
                                    actions,
                                );
                            },
                            Streaming::To(_) => {},
                        },
                        _ => {},
                    },
                }
                self.connections.insert(session_id.0, connection);
            },
            None => {},
        }
        assert(self@ =~= before.asking(session_id, wanted, now).state);
        assert(messages::action_views(actions@) =~= messages::action_views(acts0)
            + before.asking(session_id, wanted, now).actions);
    }

    /// Asks again for what batches miss that were given up.
    pub fn ask_for_missing(
        &mut self,
        pruned: &Vec<Pruned>,
        now: Timestamp,
        actions: &mut Vec<Action>,
    )
        requires
            old(self).wf(),
        ensures
            final(self).wf(),
            final(self)@ == old(self)@.given_up(pruned@, now).state,
            messages::appended(
                old(actions)@,
                final(actions)@,
                old(self)@.given_up(pruned@, now).actions,
            ),
    {
        let ghost before = self@;
        let ghost acts0 = actions@;
        let sessions: Vec<SessionId> = note_unrecoverable(pruned, actions);
        let ghost acts1 = actions@;
        let mut i: usize = 0;
        assert(sessions@.take(0) =~= seq![]);
        while i < sessions.len()
            invariant
                i <= sessions@.len(),
                self.wf(),
                self@ == before.asking_all(sessions@.take(i as int), pruned@, now).state,
                messages::action_views(actions@) =~= messages::action_views(acts1)
                    + before.asking_all(sessions@.take(i as int), pruned@, now).actions,
            decreases sessions.len() - i,
        {
            assert(sessions@.take(i + 1).drop_last() =~= sessions@.take(i as int));
            let session: SessionId = sessions[i];
            assert(sessions@.take(i + 1).last() == session);
            let positions: Vec<BytePosition> = collect_missed(pruned, session);
            self.ask_again(session, positions, now, actions);
            i += 1;
        }
        assert(sessions@.take(sessions@.len() as int) =~= sessions@);
        assert(messages::action_views(actions@) =~= messages::action_views(acts0)
            + before.given_up(pruned@, now).actions);
    }

    /// Gives up batches that are too old, and asks again for what they miss.
    pub fn prune_fec(&mut self, now: Timestamp, actions: &mut Vec<Action>)
        requires
            old(self).wf(),
        ensures
            final(self).wf(),
            exists|pruned: Seq<Pruned>| #[trigger]
                old(self)@.fec.prunes(final(self)@.fec, PACKET_DISCARD_TIME_MS, now, pruned) && {
                    let step = (StateView { fec: final(self)@.fec, ..old(self)@ }).given_up(
                        pruned,
                        now,
                    );
                    &&& final(self)@ == step.state
                    &&& messages::appended(old(actions)@, final(actions)@, step.actions)
                },
    {
        let ghost before = self@;
        let pruned: Vec<Pruned> = self.fec.prune(PACKET_DISCARD_TIME_MS, now);
        let ghost mid = self@;
        assert(mid =~= (StateView { fec: mid.fec, ..before }));
        self.ask_for_missing(&pruned, now, actions);
        proof {
            lemma_given_up_keeps_fec(mid, pruned@, now);
        }
        assert(before.fec.prunes(self@.fec, PACKET_DISCARD_TIME_MS, now, pruned@));
    }
}

proof fn lemma_asking_keeps_fec(
    state: StateView,
    sessions: Seq<SessionId>,
    pruned: Seq<Pruned>,
    now: Timestamp,
)
    ensures
        state.asking_all(sessions, pruned, now).state.fec == state.fec,
    decreases sessions.len(),
{
    if sessions.len() > 0 {
        lemma_asking_keeps_fec(state, sessions.drop_last(), pruned, now);
    }
}

proof fn lemma_given_up_keeps_fec(state: StateView, pruned: Seq<Pruned>, now: Timestamp)
    ensures
        state.given_up(pruned, now).state.fec == state.fec,
{
    lemma_asking_keeps_fec(state, affected(pruned), pruned, now);
}

} // verus!
