//! Packets on their way out: gathered into batches, or sent at once.
use vstd::prelude::*;

use crate::manager::fields::PacketType;
use crate::packet_processor::types;
use crate::packet_processor::types::{ProcessedPacket, ProcessedView};
use crate::transport::types::{
    Meters, OutboundSockets, PoolChange, BUFFER_TIMEOUT, MAX_PACKET_BUFFER_SIZE,
};

verus! {

/// How a packet leaves.
#[derive(Debug, Clone, Copy, PartialEq, Eq, Structural)]
pub enum Route {
    /// In a batch.
    Batch,
    /// At once, by the socket that listens, so that the peer sees where to answer.
    Listening,
    /// At once, by a socket of the pool.
    Pool,
}

/// How packets of a type leave.
pub open spec fn route_of(packet_type: PacketType) -> Route {
    match packet_type {
        PacketType::Data | PacketType::Metadata | PacketType::Parity => Route::Batch,
        PacketType::Host | PacketType::KeepAlive => Route::Listening,
        _ => Route::Pool,
    }
}

/// Tells how packets of a type leave.
pub fn route(packet_type: PacketType) -> (r: Route)
    ensures
        r == route_of(packet_type),
{
    match packet_type {
        PacketType::Data | PacketType::Metadata | PacketType::Parity => Route::Batch,
        PacketType::Host | PacketType::KeepAlive => Route::Listening,
        _ => Route::Pool,
    }
}

/// Something to send.
#[derive(Debug)]
pub enum Sending {
    /// One packet, once, by the socket that listens.
    Listening(ProcessedPacket),
    /// One packet, once, by a socket of the pool.
    Direct { socket: usize, packet: ProcessedPacket },
    /// Packets, each as often as it says, by a socket of the pool.
    Batch { socket: usize, packets: Vec<ProcessedPacket> },
}

/// Something to send, for contracts.
#[verifier::ext_equal]
pub enum SendingView {
    Listening(ProcessedView),
    Direct { socket: usize, packet: ProcessedView },
    Batch { socket: usize, packets: Seq<ProcessedView> },
}

impl View for Sending {
    type V = SendingView;

    open spec fn view(&self) -> SendingView {
        match self {
            Sending::Listening(packet) => SendingView::Listening(packet@),
            Sending::Direct { socket, packet } => SendingView::Direct {
                socket: *socket,
                packet: packet@,
            },
            Sending::Batch { socket, packets } => SendingView::Batch {
                socket: *socket,
                packets: types::processed_views(packets@),
            },
        }
    }
}

/// What is to be sent, if anything.
pub open spec fn sending_view(sending: Option<Sending>) -> Option<SendingView> {
    match sending {
        Some(s) => Some(s@),
        None => None,
    }
}

/// The packets that wait for the batch to be complete, and the sockets.
#[derive(Debug)]
pub struct Outbound {
    pub sockets: OutboundSockets,
    pub buffer: Vec<ProcessedPacket>,
}

/// The packets that wait and the sockets, for contracts.
#[verifier::ext_equal]
pub struct OutboundView {
    pub sockets: OutboundSockets,
    pub buffer: Seq<ProcessedView>,
}

impl View for Outbound {
    type V = OutboundView;

    open spec fn view(&self) -> OutboundView {
        OutboundView { sockets: self.sockets, buffer: types::processed_views(self.buffer@) }
    }
}

impl OutboundView {
    /// The same with the next socket's turn.
    pub open spec fn turned(self) -> OutboundView {
        OutboundView {
            sockets: OutboundSockets { current: self.sockets.next() as usize, ..self.sockets },
            ..self
        }
    }

    /// What is there after a packet was handed in.
    pub open spec fn taken(self, packet: ProcessedView) -> OutboundView {
        match route_of(packet.packet_type) {
            Route::Batch => OutboundView { buffer: self.buffer.push(packet), ..self },
            Route::Listening => self,
            Route::Pool => self.turned(),
        }
    }

    /// What is sent when a packet is handed in.
    pub open spec fn sent_at_once(self, packet: ProcessedView) -> Option<SendingView> {
        match route_of(packet.packet_type) {
            Route::Batch => None,
            Route::Listening => Some(SendingView::Listening(packet)),
            Route::Pool => Some(SendingView::Direct { socket: self.sockets.current, packet }),
        }
    }

    /// What is there after the batch left.
    pub open spec fn flushed(self) -> OutboundView {
        if self.buffer.len() == 0 {
            self
        } else {
            OutboundView { buffer: seq![], ..self.turned() }
        }
    }

    /// The batch, if it is not empty.
    pub open spec fn batch(self) -> Option<SendingView> {
        if self.buffer.len() == 0 {
            None
        } else {
            Some(SendingView::Batch { socket: self.sockets.current, packets: self.buffer })
        }
    }
}

impl Outbound {
    /// One socket, whose turn it is, no batch counted yet, and nothing to send.
    pub fn new() -> (o: Self)
        ensures
            o@ == (OutboundView {
                sockets: OutboundSockets { count: 1, current: 0, meters: Meters::fresh() },
                buffer: seq![],
            }),
            o.sockets.wf(),
            o.sockets.meters.room(),
    {
        let o = Outbound { sockets: OutboundSockets::new(), buffer: Vec::new() };
        assert(o@.buffer =~= Seq::<ProcessedView>::empty());
        o
    }

    /// How long to wait for the next packet of a batch that was begun `elapsed`
    /// milliseconds ago. Nothing if the batch is full or its time is over.
    pub fn remaining(&self, elapsed: u64) -> (r: Option<u64>)
        ensures
            r is Some <==> elapsed < BUFFER_TIMEOUT && self@.buffer.len() < MAX_PACKET_BUFFER_SIZE,
            r matches Some(left) ==> left == BUFFER_TIMEOUT - elapsed,
    {
        if elapsed < BUFFER_TIMEOUT && self.buffer.len() < MAX_PACKET_BUFFER_SIZE {
            Some(BUFFER_TIMEOUT - elapsed)
        } else {
            None
        }
    }

    /// Takes a packet: into the batch, or to be sent at once.
    pub fn take(&mut self, packet: ProcessedPacket) -> (sending: Option<Sending>)
        requires
            old(self).sockets.wf(),
        ensures
            final(self)@ == old(self)@.taken(packet@),
            sending_view(sending) == old(self)@.sent_at_once(packet@),
            final(self).sockets.wf(),
    {
        match route(packet.packet_type) {
            Route::Batch => {
                types::push_processed(&mut self.buffer, packet);
                None
            },
            Route::Listening => Some(Sending::Listening(packet)),
            Route::Pool => {
                let socket: usize = self.sockets.retrieve();
                Some(Sending::Direct { socket, packet })
            },
        }
    }

    /// The time of a batch that took `elapsed` milliseconds is over, or it is full. Tells
    /// what that does to the pool.
    pub fn end_window(&mut self, elapsed: u64) -> (change: PoolChange)
        requires
            old(self).sockets.wf(),
            old(self).sockets.meters.room(),
        ensures
            change == old(self).sockets.change(elapsed),
            final(self)@ == (OutboundView {
                sockets: old(self).sockets.updated(elapsed),
                ..old(self)@
            }),
            final(self).sockets.wf(),
    {
        self.sockets.update(elapsed)
    }

    /// Hands out the batch, if there is anything in it.
    pub fn flush(&mut self) -> (sending: Option<Sending>)
        requires
            old(self).sockets.wf(),
        ensures
            final(self)@ == old(self)@.flushed(),
            sending_view(sending) == old(self)@.batch(),
            final(self).sockets.wf(),
    {
        if self.buffer.len() == 0 {
            return None;
        }
        let socket: usize = self.sockets.retrieve();
        let mut packets: Vec<ProcessedPacket> = Vec::new();
        packets.append(&mut self.buffer);
        assert(types::processed_views(packets@) =~= old(self)@.buffer);
        assert(self@ =~= old(self)@.flushed());
        Some(Sending::Batch { socket, packets })
    }
}

/// The packets of a batch in the order in which they are sent, each as often as it says.
pub open spec fn copies(packets: Seq<ProcessedView>) -> Seq<ProcessedView>
    decreases packets.len(),
{
    if packets.len() == 0 {
        seq![]
    } else {
        copies(packets.drop_last()) + Seq::new(
            packets.last().duplicate_count as nat,
            |i: int| packets.last(),
        )
    }
}

/// The places of the packets of a batch in the order in which they are sent.
pub fn send_order(packets: &Vec<ProcessedPacket>) -> (order: Vec<usize>)
    ensures
        order@.len() == copies(types::processed_views(packets@)).len(),
        forall|i: int|
            0 <= i < order@.len() ==> (#[trigger] order@[i]) < packets@.len()
                && packets@[order@[i] as int]@ == copies(types::processed_views(packets@))[i],
{
    let mut order: Vec<usize> = Vec::new();
    let ghost whole = types::processed_views(packets@);
    let mut i: usize = 0;
    while i < packets.len()
        invariant
            i <= packets@.len(),
            whole == types::processed_views(packets@),
            order@.len() == copies(whole.take(i as int)).len(),
            forall|j: int|
                0 <= j < order@.len() ==> (#[trigger] order@[j]) < packets@.len()
                    && packets@[order@[j] as int]@ == copies(whole.take(i as int))[j],
        decreases packets@.len() - i,
    {
        let ghost before = copies(whole.take(i as int));
        let count: usize = packets[i].duplicate_count;
        let mut c: usize = 0;
        while c < count
            invariant
                i < packets@.len(),
                c <= count,
                count == packets@[i as int].duplicate_count,
                before == copies(whole.take(i as int)),
                whole == types::processed_views(packets@),
                order@.len() == before.len() + c,
                forall|j: int|
                    0 <= j < before.len() ==> (#[trigger] order@[j]) < packets@.len()
                        && packets@[order@[j] as int]@ == before[j],
                forall|j: int| before.len() <= j < order@.len() ==> #[trigger] order@[j] == i,
            decreases count - c,
        {
            order.push(i);
            c += 1;
        }
        assert(whole.take(i + 1).drop_last() =~= whole.take(i as int));
        assert(whole.take(i + 1).last() == packets@[i as int]@);
        i += 1;
    }
    assert(whole.take(packets@.len() as int) =~= whole);
    order
}

} // verus!
