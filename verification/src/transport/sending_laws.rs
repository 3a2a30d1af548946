//! What becomes of the packets that are handed to the transport: each goes out, once or as
//! often as it says, and the sockets of the pool take turns.
use vstd::prelude::*;

use crate::manager::fields::PacketType;
use crate::packet_processor::types::ProcessedView;
use crate::transport::outbound;
use crate::transport::outbound::{OutboundView, SendingView};
use crate::transport::types::OutboundSockets;

verus! {

/// Whether packets of a kind are gathered.
pub open spec fn is_gathered(kind: PacketType) -> bool {
    kind == PacketType::Data || kind == PacketType::Parity || kind == PacketType::Metadata
}

/// Whether a packet is handed out by itself.
pub open spec fn is_sent_alone(sending: Option<SendingView>, packet: ProcessedView) -> bool {
    match sending {
        Some(SendingView::Listening(p)) => p == packet,
        Some(SendingView::Direct { socket: _, packet: p }) => p == packet,
        _ => false,
    }
}

/// The transport after it took packets.
pub open spec fn after_all(o: OutboundView, packets: Seq<ProcessedView>) -> OutboundView
    decreases packets.len(),
{
    if packets.len() == 0 {
        o
    } else {
        after_all(o, packets.drop_last()).taken(packets.last())
    }
}

/// The packets of a gathered kind, in order.
pub open spec fn gathered(packets: Seq<ProcessedView>) -> Seq<ProcessedView>
    decreases packets.len(),
{
    if packets.len() == 0 {
        seq![]
    } else if is_gathered(packets.last().packet_type) {
        gathered(packets.drop_last()).push(packets.last())
    } else {
        gathered(packets.drop_last())
    }
}

/// A packet is either gathered or handed out at once, never both and never neither. Only those
/// that carry a stream are gathered. What tells a peer where to answer goes out by the socket
/// that listens.
pub proof fn packets_are_gathered_or_sent(o: OutboundView, packet: ProcessedView)
    requires
        o.sockets.current < o.sockets.count,
    ensures
        ({
            let after = o.taken(packet);
            let sent = o.sent_at_once(packet);
            &&& is_gathered(packet.packet_type) ==> sent is None && after.buffer == o.buffer.push(
                packet,
            ) && after.sockets == o.sockets
            &&& !is_gathered(packet.packet_type) ==> is_sent_alone(sent, packet) && after.buffer
                == o.buffer
            &&& packet.packet_type == PacketType::Host || packet.packet_type
                == PacketType::KeepAlive ==> sent == Some(SendingView::Listening(packet))
            &&& sent matches Some(SendingView::Direct { socket, packet: _ }) ==> socket
                == o.sockets.current && after.sockets.current == if o.sockets.current + 1
                == o.sockets.count {
                0
            } else {
                o.sockets.current + 1
            }
            &&& after.sockets.count == o.sockets.count
        }),
{
}

/// A batch has every packet that was gathered since the last one, in order, and is empty after
/// that.
pub proof fn no_gathered_packet_is_lost(o: OutboundView, packets: Seq<ProcessedView>)
    requires
        o.buffer.len() == 0,
    ensures
        ({
            let all = after_all(o, packets);
            &&& all.buffer == gathered(packets)
            &&& gathered(packets).len() == 0 ==> all.batch() is None
            &&& gathered(packets).len() > 0 ==> (all.batch() matches Some(
                SendingView::Batch { socket, packets: sent },
            ) && sent == gathered(packets) && socket == all.sockets.current)
            &&& all.flushed().buffer.len() == 0
        }),
    decreases packets.len(),
{
    if packets.len() > 0 {
        no_gathered_packet_is_lost(o, packets.drop_last());
    } else {
        assert(o.buffer =~= gathered(packets));
    }
}

/// How many copies are sent of the first `k` packets.
pub open spec fn copies_of(packets: Seq<ProcessedView>, k: int) -> int
    decreases k,
{
    if k <= 0 {
        0
    } else {
        copies_of(packets, k - 1) + packets[k - 1].duplicate_count
    }
}

proof fn lemma_copies_of(packets: Seq<ProcessedView>, more: Seq<ProcessedView>, k: int)
    requires
        k <= packets.len() <= more.len(),
        forall|i: int| 0 <= i < packets.len() ==> #[trigger] packets[i] == more[i],
    ensures
        copies_of(packets, k) == copies_of(more, k),
    decreases k,
{
    if k > 0 {
        lemma_copies_of(packets, more, k - 1);
        assert(packets[k - 1] == more[k - 1]);
    }
}

/// Each packet of a batch is sent as often as it says, its copies one after the other, and in
/// the order of the batch.
pub proof fn each_packet_is_sent_as_often_as_it_says(
    packets: Seq<ProcessedView>,
    k: int,
    j: int,
)
    requires
        0 <= k < packets.len(),
        0 <= j < packets[k].duplicate_count,
    ensures
        outbound::copies(packets).len() == copies_of(packets, packets.len() as int),
        0 <= copies_of(packets, k) + j < outbound::copies(packets).len(),
        outbound::copies(packets)[copies_of(packets, k) + j] == packets[k],
    decreases packets.len(),
{
    lemma_copies_len(packets);
    let rest = packets.drop_last();
    lemma_copies_len(rest);
    lemma_copies_of(rest, packets, rest.len() as int);
    let before = outbound::copies(rest);
    if k < rest.len() {
        assert(rest[k] == packets[k]);
        each_packet_is_sent_as_often_as_it_says(rest, k, j);
        lemma_copies_of(rest, packets, k);
        assert(outbound::copies(packets)[copies_of(packets, k) + j] == before[copies_of(rest, k)
            + j]);
    } else {
        assert(packets[k] == packets.last());
        assert(copies_of(packets, k) == before.len());
    }
}

proof fn lemma_copies_len(packets: Seq<ProcessedView>)
    ensures
        outbound::copies(packets).len() == copies_of(packets, packets.len() as int),
        copies_of(packets, packets.len() as int) >= 0,
    decreases packets.len(),
{
    if packets.len() > 0 {
        let rest = packets.drop_last();
        lemma_copies_len(rest);
        lemma_copies_of(rest, packets, rest.len() as int);
    }
}

/// The sockets of the pool after a number of turns.
pub open spec fn after_turns(o: OutboundView, n: nat) -> OutboundView
    decreases n,
{
    if n == 0 {
        o
    } else {
        after_turns(o, (n - 1) as nat).turned()
    }
}

/// The sockets of the pool take turns: after as many turns as there are sockets it is the
/// first one's turn again, and in between each other one had its own.
pub proof fn sockets_take_turns(o: OutboundView, n: nat)
    requires
        o.sockets.current < o.sockets.count,
        n <= o.sockets.count,
    ensures
        ({
            let after = after_turns(o, n);
            &&& after.sockets.count == o.sockets.count
            &&& after.buffer == o.buffer
            &&& after.sockets.current == (if o.sockets.current + n < o.sockets.count {
                o.sockets.current + n
            } else {
                o.sockets.current + n - o.sockets.count
            })
        }),
    decreases n,
{
    if n > 0 {
        sockets_take_turns(o, (n - 1) as nat);
    }
}

/// A socket that is given up is not the one whose turn it is, which stays the same one; the
/// pool never runs out of sockets.
pub proof fn the_current_socket_stays(sockets: OutboundSockets, elapsed: u64)
    requires
        sockets.current < sockets.count,
    ensures
        ({
            let after = sockets.updated(elapsed);
            &&& after.current < after.count
            &&& sockets.change(elapsed).removed matches Some(gone) ==> gone < sockets.count && gone
                != sockets.current && after.count == sockets.count - 1 && after.current == (
            if gone < sockets.current {
                sockets.current - 1
            } else {
                sockets.current as int
            })
            &&& sockets.change(elapsed).removed is None ==> after.count == sockets.count
                && after.current == sockets.current
            &&& sockets.count == 1 ==> sockets.change(elapsed).removed is None
        }),
{
}

} // verus!
