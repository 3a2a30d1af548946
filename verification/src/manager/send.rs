//! Packets that are sent for their own sake.
use vstd::prelude::*;

use crate::manager::fields::{
    ControlType, ErrorType, Options, PacketType, SessionId, Version, CURRENT_VERSION,
};
use crate::manager::identity::{Address, PacketFingerprint, Reserved};
use crate::manager::images::AppRejectErrorPacket;
use crate::manager::packets;
use crate::manager::packets::Packet;
use crate::manager::types::Timestamp;
use crate::manager::views;
use crate::packet_processor::fingerprint;
use crate::packet_processor::fingerprint::Fingerprint;
use crate::utils::messages;
use crate::utils::messages::{Action, ActionView};

verus! {

/// The application's refusal of a packet, with its words.
pub open spec fn app_rejected_view(
    opts: Options,
    session: SessionId,
    packet_type: PacketType,
    control_type: ControlType,
    fingerprint: u128,
    message: Seq<u8>,
    now: Timestamp,
) -> views::PacketView {
    views::PacketView::AppRejectError(
        views::AppRejectView {
            version: Version(CURRENT_VERSION),
            opts: packets::with_ack(opts),
            packet_type: PacketType::Error,
            error_type: ErrorType::AppReject,
            reserved: Reserved,
            session_id: session,
            timestamp: now,
            received_type: packet_type,
            received_control_type: control_type,
            received_fingerprint: PacketFingerprint(fingerprint),
            payload: message,
        },
    )
}

/// Tells the peer that the application refuses a packet, and which one.
pub fn send_app_rejected_error_packet<T: Fingerprint>(
    address: Address,
    opts: Options,
    session_id: SessionId,
    packet_type: PacketType,
    control_type: ControlType,
    refused: &T,
    message: Vec<u8>,
    now: Timestamp,
    actions: &mut Vec<Action>,
)
    ensures
        messages::appended(
            old(actions)@,
            final(actions)@,
            seq![
                ActionView::Send {
                    packet: app_rejected_view(
                        opts,
                        session_id,
                        packet_type,
                        control_type,
                        fingerprint::xxh3_128_of(refused.fingerprinted()),
                        message@,
                        now,
                    ),
                    addr: address,
                },
            ],
        ),
{
    let ghost acts0 = actions@;
    let ghost words = message@;
    let packet: Box<AppRejectErrorPacket> = AppRejectErrorPacket::new(
        opts,
        session_id,
        packet_type,
        control_type,
        refused.fingerprint(),
        message,
        now,
    );
    let ghost sent = ActionView::Send {
        packet: app_rejected_view(
            opts,
            session_id,
            packet_type,
            control_type,
            fingerprint::xxh3_128_of(refused.fingerprinted()),
            words,
            now,
        ),
        addr: address,
    };
    messages::push_action(
        actions,
        Action::Send { packet: Packet::AppRejectErrorPacket(packet), addr: address },
    );
    assert(messages::action_views(actions@) =~= messages::action_views(acts0) + seq![sent]);
}

} // verus!
