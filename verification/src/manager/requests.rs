//! Packets that a receiver sends about its stream.
use vstd::prelude::*;

use crate::manager::packets;
use crate::manager::packets::{
    Address, ByteRange, ControlType, Options, Packet, PacketType, PlaybackControlType,
    PlaybackStatusPacket, RetransmitPacket, SessionControlType, SessionId, Version,
    CURRENT_VERSION, MAX_RANGES_PER_PACKET,
};
use crate::manager::types::Timestamp;
use crate::manager::views;
use crate::utils::messages;
use crate::utils::messages::{Action, ActionView};
use crate::utils::Flags;

verus! {

/// The packet that says that a stream has arrived in full.
pub open spec fn done_view(session: SessionId, now: Timestamp) -> views::PacketView {
    views::PacketView::PlaybackStatus(
        PlaybackStatusPacket::of(Options(0), session, PlaybackControlType::Done, None, now),
    )
}

/// The packet that asks for `ranges` again.
pub open spec fn retransmit_view(
    session: SessionId,
    ranges: Seq<ByteRange>,
    now: Timestamp,
) -> views::PacketView {
    views::PacketView::Retransmit(
        views::RetransmitView {
            version: Version(CURRENT_VERSION),
            opts: packets::with_ack(Options(0)),
            packet_type: PacketType::Session,
            control_type: ControlType::Session(SessionControlType::Retransmit),
            buffer_id: None,
            session_id: session,
            timestamp: now,
            payload: ranges,
        },
    )
}

/// Number of packets that `n` ranges are asked for in.
pub open spec fn packets_for(n: int) -> int {
    (n + 229) / 230
}

/// The requests for `ranges`, as many in one packet as fit.
pub open spec fn retransmit_sends(
    session: SessionId,
    addr: Address,
    ranges: Seq<ByteRange>,
    now: Timestamp,
) -> Seq<ActionView> {
    Seq::new(
        packets_for(ranges.len() as int) as nat,
        |i: int|
            ActionView::Send {
                packet: retransmit_view(
                    session,
                    ranges.subrange(
                        i * 230,
                        if i * 230 + 230 <= ranges.len() {
                            i * 230 + 230
                        } else {
                            ranges.len() as int
                        },
                    ),
                    now,
                ),
                addr,
            },
    )
}

/// Asks for `ranges` again, in several packets if one does not hold them.
pub fn dispatch_retransmit_request(
    session_id: SessionId,
    addr: Address,
    ranges: Vec<ByteRange>,
    now: Timestamp,
    actions: &mut Vec<Action>,
)
    ensures
        messages::action_views(final(actions)@) == messages::action_views(old(actions)@)
            + retransmit_sends(session_id, addr, ranges@, now),
{
    let ghost views0 = messages::action_views(actions@);
    let ghost all = retransmit_sends(session_id, addr, ranges@, now);
    let mut at: usize = 0;
    let ghost mut i: int = 0;
    assert(views0 =~= views0 + all.take(0));
    while at < ranges.len()
        invariant
            at <= ranges@.len(),
            at == (if i * 230 <= ranges@.len() {
                i * 230
            } else {
                ranges@.len() as int
            }),
            0 <= i <= all.len(),
            all == retransmit_sends(session_id, addr, ranges@, now),
            at < ranges@.len() ==> i < all.len(),
            at == ranges@.len() ==> i == all.len(),
            messages::action_views(actions@) == views0 + all.take(i),
        decreases ranges.len() - at,
    {
        let end: usize = if ranges.len() - at <= MAX_RANGES_PER_PACKET {
            ranges.len()
        } else {
            at + MAX_RANGES_PER_PACKET
        };
        let mut chunk: Vec<ByteRange> = Vec::new();
        let mut j: usize = at;
        while j < end
            invariant
                at <= j <= end <= ranges@.len(),
                chunk@ =~= ranges@.subrange(at as int, j as int),
            decreases end - j,
        {
            chunk.push(ranges[j]);
            j += 1;
        }
        let packet: Box<RetransmitPacket> = RetransmitPacket::data(
            Options::none(),
            session_id,
            chunk,
            now,
        );
        let ghost sent = packet@;
        messages::push_action(
            actions,
            Action::Send { packet: Packet::RetransmitPacket(packet), addr },
        );
        assert(views::PacketView::Retransmit(sent) =~= retransmit_view(
            session_id,
            ranges@.subrange(at as int, end as int),
            now,
        ));
        assert(all[i] == ActionView::Send {
            packet: retransmit_view(session_id, ranges@.subrange(at as int, end as int), now),
            addr,
        });
        at = end;
        proof {
            i = i + 1;
        }
        assert(messages::action_views(actions@) =~= views0 + all.take(i));
    }
    assert(all.take(i) =~= all);
}

/// Says that a stream has arrived in full.
pub fn send_done(session_id: SessionId, addr: Address, now: Timestamp, actions: &mut Vec<Action>)
    ensures
        messages::action_views(final(actions)@) == messages::action_views(old(actions)@).push(
            ActionView::Send { packet: done_view(session_id, now), addr },
        ),
{
    messages::push_action(
        actions,
        Action::Send {
            packet: Packet::PlaybackStatusPacket(
                PlaybackStatusPacket::done(Options::none(), session_id, now),
            ),
            addr,
        },
    );
}

} // verus!
