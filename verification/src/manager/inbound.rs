//! Packets that arrive, on their way to what handles them.
use vstd::prelude::*;

use crate::manager::connection::ConnectionStates;
use crate::manager::hello;
use crate::manager::identity::Address;
use crate::manager::packets;
use crate::manager::packets::{Packet, PacketWrapper};
use crate::manager::received;
use crate::manager::received_data::{DataIntake, ParityIntake};
use crate::manager::state::{ProtocolState, StateView};
use crate::manager::types::Timestamp;
use crate::manager::views;
use crate::packet_processor::fingerprint;
use crate::utils::data_collection::Observation;
use crate::utils::messages;
use crate::utils::messages::{Action, ActionView, ConnectionEventView};

verus! {

/// What a request for a stream tells.
pub open spec fn track_request_actions(
    state: StateView,
    packet: views::TrackRequestView,
) -> Seq<ActionView> {
    match received::asked_config(packet.payload) {
        Some(config) => if state.is_up(packet.session_id) {
            seq![
                ActionView::Notify {
                    session: packet.session_id,
                    news: ConnectionEventView::TrackRequest(packet.payload.skip(3), config),
                },
            ]
        } else {
            seq![]
        },
        None => seq![],
    }
}

/// What a packet with the given fingerprint does that came from `addr`: the state `next`
/// after it, and what there was to do before and after it.
pub open spec fn handles(
    state: StateView,
    next: StateView,
    packet: views::PacketView,
    print: u128,
    addr: Address,
    now: Timestamp,
    before: Seq<ActionView>,
    after: Seq<ActionView>,
) -> bool {
    match packet {
        views::PacketView::Hello(p) => if state.handshakes.dom().contains(p.handshake_id) {
            hello::answers(state, next, p, addr.at_port(p.receiving_port.0), now, before, after)
        } else {
            next == state && after == before + seq![
                ActionView::AskApp { packet, addr: addr.at_port(p.receiving_port.0) },
            ]
        },
        views::PacketView::Data(p) => if state.has(p.session_id) && state.conn(
            p.session_id,
        ) is Handshake {
            next == state && after == before + seq![ActionView::Hold { packet }]
        } else {
            &&& after == before + after.skip(before.len() as int)
            &&& exists|intake: DataIntake| #[trigger]
                state.takes_data(
                    next,
                    p,
                    print,
                    now,
                    after.skip(before.len() as int),
                    intake,
                )
        },
        views::PacketView::Parity(p) => {
            &&& after == before + after.skip(before.len() as int)
            &&& exists|intake: ParityIntake| #[trigger]
                state.takes_parity(next, p, print, now, after.skip(before.len() as int), intake)
        },
        views::PacketView::HandshakeAck(p) => next == state.confirmed(p.session_id) && after
            == before + state.confirmation(p.session_id),
        views::PacketView::TrackRequest(p) => next == state.heard(p.session_id, p.timestamp)
            && after == before + track_request_actions(state, p),
        views::PacketView::Ack(p) => {
            let heard = state.heard(p.session_id, p.timestamp);
            &&& next == (StateView { ack: heard.ack.acknowledged(p.fingerprint.0), ..heard })
            &&& after == before
        },
        views::PacketView::SessionDoesNotExistError(p) => next == state.without(p.session_id)
            && after == before + (state.closing_notice(p.session_id) + state.farewell(
            p.session_id,
        )),
        views::PacketView::CloseSession(p) => next == state.without(p.session_id) && after
            == before + (state.closing_notice(p.session_id) + state.farewell(p.session_id)),
        views::PacketView::TrackRejection(p) => {
            let step = state.track_rejected(p.session_id);
            next == step.state && after == before + step.actions
        },
        views::PacketView::Retransmit(p) => next == state && after == before + ((
        if packets::wants_ack(p.opts) {
            state.acks(p.session_id, print, now)
        } else {
            seq![]
        }) + state.retransmit_served(p)),
        views::PacketView::PlaybackStatus(p) => {
            let step = state.controlled(p);
            next == step.state && after == before + step.actions
        },
        views::PacketView::HandshakeRejection(p) => {
            let step = state.refused(p);
            next == step.state && after == before + step.actions
        },
        views::PacketView::KeepAlive(p) => next == state.heard(
            p.session_id,
            p.timestamp,
        ).moved(p.session_id, addr) && after == before + (if state.movable(p.session_id, addr) {
            seq![ActionView::Observe(Observation::AddressRebind { session: p.session_id })]
        } else {
            seq![]
        }),
        _ => next == state && after == before,
    }
}

/// The fingerprint of a packet, if it has one.
pub open spec fn print_of(packet: Packet) -> u128 {
    fingerprint::xxh3_128_of(packet.fingerprinted()->Some_0)
}

impl ProtocolState {
    /// Hands a packet that arrived to what handles it. Complaints that a packet was
    /// unexpected, of another version or refused by an application change nothing, and
    /// bytes about streams are not asked for yet.
    pub fn handle_message(
        &mut self,
        message: PacketWrapper,
        now: Timestamp,
        actions: &mut Vec<Action>,
    )
        requires
            old(self).wf(),
        ensures
            final(self).wf(),
            handles(
                old(self)@,
                final(self)@,
                message.packet@,
                print_of(message.packet),
                message.addr,
                now,
                messages::action_views(old(actions)@),
                messages::action_views(final(actions)@),
            ),
    {
        let addr: Address = message.addr;
        let ghost acts0 = actions@;
        let ghost views0 = messages::action_views(actions@);
        let ghost before = self@;
        let ghost whole = message.packet;
        match message.packet {
            Packet::HelloPacket(p) => {
                self.received_hello_packet(*p, addr, now, actions);
            },
            Packet::DataPacket(p) => {
                let waits: bool = match self.connections.get(p.session_id.0) {
                    Some(ConnectionStates::Handshake { .. }) => true,
                    _ => false,
                };
                if waits {
                    messages::push_action(actions, Action::Hold { packet: Packet::DataPacket(p) });
                    assert(messages::action_views(actions@) =~= views0 + seq![
                        ActionView::Hold { packet: whole@ },
                    ]);
                } else {
                    self.received_data_packet(&*p, now, actions);
                    assert(views0.len() == acts0.len());
                }
            },
            Packet::ParityPacket(p) => {
                self.received_parity_packet(&*p, now, actions);
                assert(views0.len() == acts0.len());
            },
            Packet::HandshakeAckPacket(p) => {
                self.received_handshake_ack_packet(&*p, actions);
            },
            Packet::TrackRequestPacket(p) => {
                self.received_track_request_packet(*p, actions);
            },
            Packet::AckPacket(p) => {
                self.received_ack_packet(&*p);
            },
            Packet::SessionDoesNotExistErrorPacket(p) => {
                self.received_session_does_not_exist_error(&*p, actions);
            },
            Packet::CloseSessionPacket(p) => {
                self.received_close_session_packet(&*p, actions);
            },
            Packet::TrackRejectionPacket(p) => {
                self.received_track_reject_packet(&*p, actions);
            },
            Packet::RetransmitPacket(p) => {
                self.received_retransmit_request(*p, now, actions);
            },
            Packet::PlaybackStatusPacket(p) => {
                self.received_playback_control_packet(&*p, actions);
            },
            Packet::HandshakeRejection(p) => {
                self.received_handshake_rejected_packet(*p, actions);
            },
            Packet::KeepAlivePacket(p) => {
                self.received_keep_alive_packet(&*p, addr, actions);
            },
            Packet::IncompatibleVersionPacket(_) => {},
            Packet::UnexpectedPacketErrorPacket(_) => {},
            Packet::AppRejectErrorPacket(_) => {},
            Packet::MetadataPacket(_) => {},
        }
    }
}

} // verus!
