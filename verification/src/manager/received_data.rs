//! What becomes of the packets of a stream that arrive.
use vstd::prelude::*;

use crate::error::{Error, FlatState};
use crate::manager::connection;
use crate::manager::connection::{ConnView, ConnectionStates, SessionStateView, SessionStates};
use crate::manager::fields::{
    BatchID, FecScheme, Options, PacketType, SecondaryType, SessionId,
};
use crate::manager::identity::{Address, PacketFingerprint};
use crate::manager::images::{DataPacket, ParityPacket, UnexpectedPacketErrorPacket};
use crate::manager::packets;
use crate::manager::packets::Packet;
use crate::manager::received;
use crate::manager::state::{ProtocolState, StateView};
use crate::manager::stream_state::Streaming;
use crate::manager::types::Timestamp;
use crate::manager::views;
use crate::packet_processor::fec;
use crate::packet_processor::fec::data::{RecoverdPacket, Recovered};
use crate::packet_processor::fec::positions;
use crate::packet_processor::fec::Fec;
use crate::packet_processor::fingerprint;
use crate::packet_processor::fingerprint::{header_fingerprint, Headers};
use crate::utils::messages;
use crate::utils::messages::{Action, ActionView};
use crate::utils::Flags;

verus! {

/// What happened when a data packet was taken in: the connection and the batches after
/// that, the result, what was told and sent, and the batch that was recovered.
pub struct DataIntake {
    pub conn: ConnView,
    pub fec: Fec,
    pub r: Result<bool, Error>,
    pub told: Seq<ActionView>,
    pub recovered: Option<Recovered>,
}

/// The packets of a batch that was recovered.
pub open spec fn packets_of(recovered: Option<Recovered>) -> Option<Vec<RecoverdPacket>> {
    match recovered {
        Some(r) => Some(r.packets),
        None => None,
    }
}

/// What a connection does with a data packet with the given fingerprint: the connection and
/// the batches before and after, and what is told and sent.
pub open spec fn conn_takes(
    before: ConnView,
    after: ConnView,
    fec0: Fec,
    fec2: Fec,
    packet: views::DataView,
    fingerprint: u128,
    now: Timestamp,
    actions: Seq<ActionView>,
    intake: DataIntake,
) -> bool {
    &&& connection::data_taken(
        before,
        intake.conn,
        fec0,
        intake.fec,
        packet,
        now,
        intake.r,
        intake.told,
    )
    &&& match intake.r {
        Ok(true) => {
            &&& intake.fec.recovers(
                fec2,
                before.stream().streaming->From_0.fec_config.scheme,
                packet.batch_id,
                packet.session_id,
                packets_of(intake.recovered),
            )
            &&& recovery(
                intake.conn,
                after,
                packet.batch_id,
                packet.session_id,
                intake.recovered,
                now,
                actions,
                intake.told,
            )
        },
        Err(Error::StateMismatch { expected, found }) => {
            &&& after == before
            &&& fec2 == fec0
            &&& actions == seq![
                ActionView::Send {
                    packet: received::unexpected_view(packet.session_id, fingerprint, now),
                    addr: before.addr(),
                },
            ]
        },
        _ => {
            &&& after == intake.conn
            &&& fec2 == intake.fec
            &&& actions == intake.told
        },
    }
}

/// What a connection that receives does with a batch that was recovered: the connection
/// after that, and what is told and sent beyond what was `told` already.
pub open spec fn recovery(
    conn: ConnView,
    after: ConnView,
    batch_id: BatchID,
    session: SessionId,
    recovered: Option<Recovered>,
    now: Timestamp,
    actions: Seq<ActionView>,
    told: Seq<ActionView>,
) -> bool {
    match recovered {
        Some(batch) => {
            let step = connection::recovery_step(conn, batch, now);
            &&& batch.session_id == session
            &&& batch.batch_id == batch_id
            &&& after == conn.with_state(SessionStateView::Streaming(step.stream))
            &&& actions == told + step.actions
        },
        None => after == conn && actions == told,
    }
}

impl StateView {
    /// The way of coding of the stream that a session receives.
    pub open spec fn scheme(self, session: SessionId) -> FecScheme {
        self.conn(session).stream().streaming->From_0.fec_config.scheme
    }

    /// The state with other batches and another connection for a session.
    pub open spec fn with_fec(self, session: SessionId, connection: ConnView, fec: Fec) -> StateView {
        StateView { fec, ..self.with_conn(session, connection) }
    }

    /// The acknowledgement of a data packet that wants one.
    pub open spec fn data_acks(
        self,
        packet: views::DataView,
        fingerprint: u128,
        now: Timestamp,
    ) -> Seq<ActionView> {
        if packets::wants_ack(packet.opts) {
            self.acks(packet.session_id, fingerprint, now)
        } else {
            seq![]
        }
    }

    /// What taking in a data packet with the given fingerprint does: the state `next`
    /// after it, and what is told and sent. The acknowledgement comes first.
    pub open spec fn takes_data(
        self,
        next: StateView,
        packet: views::DataView,
        fingerprint: u128,
        now: Timestamp,
        actions: Seq<ActionView>,
        intake: DataIntake,
    ) -> bool {
        let session = packet.session_id;
        let heard = self.heard(session, packet.timestamp);
        let acked = heard.data_acks(packet, fingerprint, now);
        if !heard.has(session) {
            next == heard && actions == acked
        } else {
            &&& next == heard.with_fec(session, next.conn(session), next.fec)
            &&& actions.len() >= acked.len()
            &&& actions.take(acked.len() as int) == acked
            &&& conn_takes(
                heard.conn(session),
                next.conn(session),
                heard.fec,
                next.fec,
                packet,
                fingerprint,
                now,
                actions.skip(acked.len() as int),
                intake,
            )
        }
    }
}

fn scheme_of(connection: &ConnectionStates) -> (r: Option<FecScheme>)
    ensures
        r == (if connection@.flat() == FlatState::StreamingFrom {
            Some(connection@.stream().streaming->From_0.fec_config.scheme)
        } else {
            None
        }),
{
    match connection {
        ConnectionStates::Established(established) => match &established.state {
            SessionStates::Streaming(stream) => match &stream.streaming {
                Streaming::From(from) => Some(from.fec_config.scheme),
                Streaming::To(_) => None,
            },
            _ => None,
        },
        ConnectionStates::Handshake { .. } => None,
    }
}

/// Recovers a batch, and hands what it missed to the connection, which receives.
fn recover_into(
    fec: &mut Fec,
    connection: &mut ConnectionStates,
    batch_id: BatchID,
    session: SessionId,
    scheme: FecScheme,
    now: Timestamp,
    actions: &mut Vec<Action>,
) -> (recovered: Option<Recovered>)
    requires
        old(fec).wf(),
        old(connection).wf(),
        old(connection)@.flat() == FlatState::StreamingFrom,
    ensures
        final(fec).wf(),
        final(connection).wf(),
        old(fec).recovers(*final(fec), scheme, batch_id, session, packets_of(recovered)),
        messages::extends(old(actions)@, final(actions)@),
        recovery(
            old(connection)@,
            final(connection)@,
            batch_id,
            session,
            recovered,
            now,
            messages::added(old(actions)@, final(actions)@),
            seq![],
        ),
{
    let ghost acts0 = actions@;
    let ghost conn0 = connection@;
    match fec.recover(batch_id, session, scheme) {
        Some(recovered) => {
            let _ = connection.recovered_packet(&recovered, now, actions);
            proof {
                let more = connection::recovery_step(conn0, recovered, now).actions;
                messages::lemma_added(acts0, actions@, more);
                assert(more =~= Seq::<ActionView>::empty() + more);
            }
            Some(recovered)
        },
        None => {
            proof {
                assert(messages::action_views(acts0) =~= messages::action_views(acts0) + seq![]);
                messages::lemma_added(acts0, actions@, seq![]);
            }
            None
        },
    }
}

/// Hands a data packet to a connection.
fn hand_to_connection(
    fec: &mut Fec,
    connection: &mut ConnectionStates,
    packet: &DataPacket,
    print: PacketFingerprint,
    now: Timestamp,
    actions: &mut Vec<Action>,
) -> (intake: Ghost<DataIntake>)
    requires
        old(fec).wf(),
        old(connection).wf(),
    ensures
        final(fec).wf(),
        final(connection).wf(),
        messages::extends(old(actions)@, final(actions)@),
        conn_takes(
            old(connection)@,
            final(connection)@,
            *old(fec),
            *final(fec),
            packet@,
            print.0,
            now,
            messages::added(old(actions)@, final(actions)@),
            intake@,
        ),
{
    let ghost acts0 = actions@;
    let ghost conn0 = connection@;
    let scheme: Option<FecScheme> = scheme_of(connection);
    let address: Address = connection.address();
    let r: Result<bool, Error> = connection.received_data_packet(packet, fec, now, actions);
    let ghost acts1 = actions@;
    let ghost told = messages::added(acts0, acts1);
    let ghost conn1 = connection@;
    let ghost fec1 = *fec;
    match r {
        Ok(true) => match scheme {
            Some(scheme) => {
                let recovered: Option<Recovered> = recover_into(
                    fec,
                    connection,
                    packet.batch_id,
                    packet.session_id,
                    scheme,
                    now,
                    actions,
                );
                proof {
                    let more = messages::added(acts1, actions@);
                    assert(messages::action_views(actions@) =~= messages::action_views(acts0) + (
                    told + more));
                    messages::lemma_added(acts0, actions@, told + more);
                    assert(told + (Seq::<ActionView>::empty() + more) =~= told + more);
                    if let Some(batch) = recovered {
                        let step = connection::recovery_step(conn1, batch, now).actions;
                        assert(Seq::<ActionView>::empty() + step =~= step);
                    } else {
                        assert(told + more =~= told);
                    }
                }
                Ghost(DataIntake { conn: conn1, fec: fec1, r, told, recovered })
            },
            None => Ghost(DataIntake { conn: conn1, fec: fec1, r, told, recovered: None }),
        },
        Err(Error::StateMismatch { expected: _, found: _ }) => {
            let reply: Box<UnexpectedPacketErrorPacket> = UnexpectedPacketErrorPacket::unexpected(
                Options::none(),
                packet.session_id,
                PacketType::Data,
                SecondaryType::none(),
                print,
                now,
            );
            messages::push_action(
                actions,
                Action::Send { packet: Packet::UnexpectedPacketErrorPacket(reply), addr: address },
            );
            proof {
                let complaint = seq![
                    ActionView::Send {
                        packet: received::unexpected_view(packet.session_id, print.0, now),
                        addr: conn0.addr(),
                    },
                ];
                assert(messages::action_views(actions@) =~= messages::action_views(acts0)
                    + complaint);
                messages::lemma_added(acts0, actions@, complaint);
            }
            Ghost(DataIntake { conn: conn1, fec: fec1, r, told, recovered: None })
        },
        _ => Ghost(DataIntake { conn: conn1, fec: fec1, r, told, recovered: None }),
    }
}

impl ProtocolState {
    /// Takes in a data packet of a session whose handshake is done: what it holds goes
    /// into the stream, and its batch is recovered if that can be done.
    pub fn received_data_packet(
        &mut self,
        packet: &DataPacket,
        now: Timestamp,
        actions: &mut Vec<Action>,
    )
        requires
            old(self).wf(),
        ensures
            final(self).wf(),
            messages::extends(old(actions)@, final(actions)@),
            exists|intake: DataIntake| #[trigger]
                old(self)@.takes_data(
                    final(self)@,
                    packet@,
                    fingerprint::xxh3_128_of(packet.head_image()),
                    now,
                    messages::added(old(actions)@, final(actions)@),
                    intake,
                ),
    {
        let ghost before = self@;
        let ghost acts0 = actions@;
        let session: SessionId = packet.session_id;
        self.update_last_activity(session, packet.timestamp);
        let ghost heard = self@;
        let print: PacketFingerprint = header_fingerprint(packet);
        let ghost acked = heard.data_acks(packet@, print.0, now);
        if packets::requires_ack(packet.opts) {
            self.received_packet_that_requires_ack(session, print, now, actions);
        }
        let ghost acts1 = actions@;
        assert(messages::action_views(acts1) =~= messages::action_views(acts0) + acked);
        proof {
            messages::lemma_added(acts0, acts1, acked);
        }
        let mut connection: ConnectionStates = match self.connections.remove(session.0) {
            Some(connection) => connection,
            None => {
                assert(self@ =~= heard);
                let ghost intake: DataIntake = arbitrary();
                assert(before.takes_data(self@, packet@, print.0, now, acked, intake));
                return;
            },
        };
        let intake: Ghost<DataIntake> = hand_to_connection(
            &mut self.fec,
            &mut connection,
            packet,
            print,
            now,
            actions,
        );
        let ghost more = messages::added(acts1, actions@);
        self.connections.insert(session.0, connection);
        proof {
            let all = acked + more;
            assert(messages::action_views(actions@) =~= messages::action_views(acts0) + all);
            messages::lemma_added(acts0, actions@, all);
            assert(all.take(acked.len() as int) =~= acked);
            assert(all.skip(acked.len() as int) =~= more);
            assert(self@ =~= heard.with_fec(session, connection@, self@.fec));
            assert(before.takes_data(self@, packet@, print.0, now, all, intake@));
        }
    }
}

/// What happened when a parity packet was taken in: the batches after that, whether its
/// batch could be recovered, and the batch that was recovered.
pub struct ParityIntake {
    pub fec: Fec,
    pub recoverable: bool,
    pub recovered: Option<Recovered>,
}

impl StateView {
    /// The way of coding of the batch of a parity packet: that of the stream that the session
    /// receives. Without such a stream it is the one that the batch began with, and that of a
    /// batch that has not begun shows in the number of its parity packets.
    pub open spec fn parity_scheme(self, packet: views::ParityView) -> FecScheme {
        let key = positions::batch_key(packet.batch_id, packet.session_id);
        if self.receives(packet.session_id) {
            self.scheme(packet.session_id)
        } else if self.fec.xor.inbound_at(key) is Some {
            FecScheme::Xor
        } else if self.fec.rs.inbound_at(key) is Some || packet.fec_info.recovery_count > 1 {
            FecScheme::ReedSolomon
        } else {
            FecScheme::Xor
        }
    }

    /// What a peer gets whose parity made up for a batch of a session that receives nothing.
    pub open spec fn parity_complaint(
        self,
        session: SessionId,
        fingerprint: u128,
        recovered: Option<Recovered>,
        now: Timestamp,
    ) -> Seq<ActionView> {
        if recovered is Some && self.has(session) {
            seq![
                ActionView::Send {
                    packet: received::unexpected_view(session, fingerprint, now),
                    addr: self.conn(session).addr(),
                },
            ]
        } else {
            seq![]
        }
    }

    /// What taking in a parity packet with the given fingerprint does: the state `next`
    /// after it, and what is told and sent.
    pub open spec fn takes_parity(
        self,
        next: StateView,
        packet: views::ParityView,
        fingerprint: u128,
        now: Timestamp,
        actions: Seq<ActionView>,
        intake: ParityIntake,
    ) -> bool {
        let session = packet.session_id;
        let heard = self.heard(session, packet.timestamp);
        let scheme = heard.parity_scheme(packet);
        if !fec::codable(packet.fec_info, scheme) {
            next == heard && actions == Seq::<ActionView>::empty()
        } else {
            &&& heard.fec.receives(
                intake.fec,
                scheme,
                packet.batch_id,
                session,
                packet.fec_info,
                true,
                fec::data::parity_image(packet.payload),
                now,
                intake.recoverable,
            )
            &&& if intake.recoverable {
                &&& intake.fec.recovers(
                    next.fec,
                    scheme,
                    packet.batch_id,
                    session,
                    packets_of(intake.recovered),
                )
                &&& if heard.receives(session) {
                    &&& next == heard.with_fec(session, next.conn(session), next.fec)
                    &&& recovery(
                        heard.conn(session),
                        next.conn(session),
                        packet.batch_id,
                        session,
                        intake.recovered,
                        now,
                        actions,
                        seq![],
                    )
                } else {
                    &&& next == (StateView { fec: next.fec, ..heard })
                    &&& actions == heard.parity_complaint(
                        session,
                        fingerprint,
                        intake.recovered,
                        now,
                    )
                }
            } else {
                &&& next == (StateView { fec: intake.fec, ..heard })
                &&& actions == Seq::<ActionView>::empty()
            }
        }
    }
}

impl ProtocolState {
    /// The way of coding of the batch of a parity packet.
    fn scheme_of_parity(&self, packet: &ParityPacket) -> (r: (FecScheme, bool))
        requires
            self.wf(),
        ensures
            r.0 == self@.parity_scheme(packet@),
            r.1 == self@.receives(packet.session_id),
    {
        let known: Option<FecScheme> = match self.connections.get(packet.session_id.0) {
            Some(connection) => scheme_of(connection),
            None => None,
        };
        match known {
            Some(scheme) => (scheme, true),
            None => {
                let scheme: FecScheme = if self.fec.xor.has(packet.batch_id, packet.session_id) {
                    FecScheme::Xor
                } else if self.fec.rs.has(packet.batch_id, packet.session_id)
                    || packet.fec_info.recovery_count > 1 {
                    FecScheme::ReedSolomon
                } else {
                    FecScheme::Xor
                };
                (scheme, false)
            },
        }
    }

    /// A batch of a session that receives nothing can be recovered: it is taken out, and the
    /// peer is told that nothing of the kind was expected.
    fn refuse_recovered(
        &mut self,
        packet: &ParityPacket,
        scheme: FecScheme,
        now: Timestamp,
        actions: &mut Vec<Action>,
    ) -> (recovered: Option<Recovered>)
        requires
            old(self).wf(),
        ensures
            final(self).wf(),
            final(self)@ == (StateView { fec: final(self)@.fec, ..old(self)@ }),
            old(self)@.fec.recovers(
                final(self)@.fec,
                scheme,
                packet.batch_id,
                packet.session_id,
                packets_of(recovered),
            ),
            messages::extends(old(actions)@, final(actions)@),
            messages::added(old(actions)@, final(actions)@) == old(self)@.parity_complaint(
                packet.session_id,
                fingerprint::xxh3_128_of(packet.head_image()),
                recovered,
                now,
            ),
    {
        let ghost before = self@;
        let ghost acts0 = actions@;
        let session: SessionId = packet.session_id;
        let recovered: Option<Recovered> = self.fec.recover(packet.batch_id, session, scheme);
        let print: PacketFingerprint = header_fingerprint(packet);
        if recovered.is_some() {
            match self.connections.get(session.0) {
                Some(connection) => {
                    let address: Address = connection.address();
                    let reply: Box<UnexpectedPacketErrorPacket> =
                        UnexpectedPacketErrorPacket::unexpected(
                        Options::none(),
                        session,
                        PacketType::Data,
                        SecondaryType::none(),
                        print,
                        now,
                    );
                    messages::push_action(
                        actions,
                        Action::Send {
                            packet: Packet::UnexpectedPacketErrorPacket(reply),
                            addr: address,
                        },
                    );
                },
                None => {},
            }
        }
        proof {
            let told = before.parity_complaint(session, print.0, recovered, now);
            assert(messages::action_views(actions@) =~= messages::action_views(acts0) + told);
            messages::lemma_added(acts0, actions@, told);
        }
        recovered
    }

    /// Takes in a parity packet: its batch is recovered if that can be done. The peer of a
    /// session that receives nothing is then told that nothing of the kind was expected.
    pub fn received_parity_packet(
        &mut self,
        packet: &ParityPacket,
        now: Timestamp,
        actions: &mut Vec<Action>,
    )
        requires
            old(self).wf(),
        ensures
            final(self).wf(),
            messages::extends(old(actions)@, final(actions)@),
            exists|intake: ParityIntake| #[trigger]
                old(self)@.takes_parity(
                    final(self)@,
                    packet@,
                    fingerprint::xxh3_128_of(packet.head_image()),
                    now,
                    messages::added(old(actions)@, final(actions)@),
                    intake,
                ),
    {
        let ghost before = self@;
        let ghost acts0 = actions@;
        let ghost print = fingerprint::xxh3_128_of(packet.head_image());
        let session: SessionId = packet.session_id;
        self.update_last_activity(session, packet.timestamp);
        let ghost heard = self@;
        proof {
            assert(messages::action_views(acts0) =~= messages::action_views(acts0) + seq![]);
            messages::lemma_added(acts0, acts0, seq![]);
        }
        let (scheme, receiving): (FecScheme, bool) = self.scheme_of_parity(packet);
        let codable: bool = packet.fec_info.batch_size > 0 && (scheme == FecScheme::Xor
            || packet.fec_info.recovery_count > 0);
        if !codable {
            let ghost intake: ParityIntake = arbitrary();
            assert(before.takes_parity(self@, packet@, print, now, seq![], intake));
            return;
        }
        let recoverable: bool = self.fec.received_parity(packet, scheme, now);
        let ghost fec1 = self.fec;
        if !recoverable {
            let ghost intake = ParityIntake { fec: fec1, recoverable, recovered: None };
            assert(self@ =~= (StateView { fec: fec1, ..heard }));
            assert(before.takes_parity(self@, packet@, print, now, seq![], intake));
            return;
        }
        if !receiving {
            let ghost mid = self@;
            assert(mid =~= (StateView { fec: fec1, ..heard }));
            let recovered: Option<Recovered> = self.refuse_recovered(packet, scheme, now, actions);
            let ghost intake = ParityIntake { fec: fec1, recoverable, recovered };
            proof {
                assert(self@ =~= (StateView { fec: self@.fec, ..heard }));
                let told = messages::added(acts0, actions@);
                assert(told == heard.parity_complaint(session, print, recovered, now));
                assert(before.takes_parity(self@, packet@, print, now, told, intake));
            }
            return;
        }
        match self.connections.remove(session.0) {
            Some(mut connection) => {
                let recovered: Option<Recovered> = recover_into(
                    &mut self.fec,
                    &mut connection,
                    packet.batch_id,
                    session,
                    scheme,
                    now,
                    actions,
                );
                self.connections.insert(session.0, connection);
                let ghost intake = ParityIntake { fec: fec1, recoverable, recovered };
                proof {
                    assert(self@ =~= heard.with_fec(session, connection@, self@.fec));
                    assert(before.takes_parity(
                        self@,
                        packet@,
                        print,
                        now,
                        messages::added(acts0, actions@),
                        intake,
                    ));
                }
            },
            None => {},
        }
    }
}

} // verus!
