//! A stream, and what it makes of packets.
use vstd::prelude::*;

use crate::api::types;
use crate::api::types::{Chunk, ChunkView, ReadableView};
use crate::manager::fields::{BatchID, BytePosition, SessionId};
use crate::manager::identity::Address;
use crate::manager::packets::DataPacket;
use crate::manager::ranges;
use crate::manager::ranges::ByteRange;
use crate::manager::requests;
use crate::manager::session_fec;
use crate::manager::session_fec::{FecBatchWindow, SessionFecState, Span};
use crate::manager::streaming;
use crate::manager::streaming::{FromView, StreamingFrom, StreamingTo, ToView};
use crate::manager::types::Timestamp;
use crate::manager::views;
use crate::packet_processor::fec::data::{RecoverdPacket, Recovered};
use crate::utils::data_collection::Observation;
use crate::utils::messages;
use crate::utils::messages::{Action, ActionView, StreamMessage};

verus! {

/// Which way a stream goes.
#[derive(Debug)]
pub enum Streaming {
    To(StreamingTo),
    From(StreamingFrom),
}

/// Which way a stream goes, for contracts.
#[verifier::ext_equal]
pub enum StreamingView {
    To(ToView),
    From(FromView),
}

impl View for Streaming {
    type V = StreamingView;

    open spec fn view(&self) -> StreamingView {
        match self {
            Streaming::To(t) => StreamingView::To(t@),
            Streaming::From(f) => StreamingView::From(f@),
        }
    }
}

/// A stream on a session.
#[derive(Debug)]
pub struct StreamState {
    pub streaming: Streaming,
    pub message: StreamMessage,
    pub fec: SessionFecState,
}

/// A stream on a session, for contracts.
#[verifier::ext_equal]
pub struct StreamView {
    pub streaming: StreamingView,
    pub message: StreamMessage,
    pub fec: Map<u64, FecBatchWindow>,
}

impl View for StreamState {
    type V = StreamView;

    open spec fn view(&self) -> StreamView {
        StreamView { streaming: self.streaming@, message: self.message, fec: self.fec@ }
    }
}

/// What is left of a stream after a packet.
#[derive(Debug, Clone, Copy, PartialEq, Eq, Structural)]
pub enum Outcome {
    /// The packet does not fit the stream.
    Refused,
    /// The stream has arrived.
    Done,
    /// More is to come.
    GoesOn,
}

/// What a packet does to a stream.
#[verifier::ext_equal]
pub struct StreamStep {
    pub stream: StreamView,
    pub actions: Seq<ActionView>,
    pub outcome: Outcome,
}

/// The positions to go through for requests, if it is time for that: all that is missing
/// once the end was reached, else what is most worth it.
pub open spec fn wanted(
    from: FromView,
    batches: Map<u64, FecBatchWindow>,
    settled: bool,
) -> Option<Seq<BytePosition>> {
    if from.buffer.at_end() {
        Some(streaming::unexpected(streaming::all_positions(from.all_holes()), batches))
    } else if settled {
        Some(streaming::unexpected(streaming::all_positions(from.best_holes()), batches))
    } else {
        None
    }
}

/// Whether a stream counts as arrived: it is complete, or the application takes it with
/// holes and its end was reached.
pub open spec fn arrived(from: FromView, message: StreamMessage) -> bool {
    from.buffer.done() || (message.complete == Some(true) && from.buffer.at_end())
}

/// Requests for what is missing from a stream.
pub open spec fn request_step(
    from: FromView,
    message: StreamMessage,
    fec: Map<u64, FecBatchWindow>,
    settled: bool,
    session: SessionId,
    address: Address,
    now: Timestamp,
) -> StreamStep {
    let batches = session_fec::live(fec, now);
    match wanted(from, batches, settled) {
        None => StreamStep {
            stream: StreamView { streaming: StreamingView::From(from), message, fec: batches },
            actions: seq![],
            outcome: Outcome::GoesOn,
        },
        Some(positions) => StreamStep {
            stream: StreamView {
                streaming: StreamingView::From(from.after_reserve(positions, now)),
                message,
                fec: batches,
            },
            actions: from.reserve(positions, now).observed(from.session_id)
                + requests::retransmit_sends(
                session,
                address,
                ranges::coalesced(from.reserve(positions, now).accepted),
                now,
            ),
            outcome: Outcome::GoesOn,
        },
    }
}

/// The message of a stream once bytes have arrived.
pub open spec fn moved(message: StreamMessage, head: int) -> StreamMessage {
    StreamMessage { head: head as usize, approved: Some(true), ..message }
}

/// The writing of a data packet.
#[verifier::ext_equal]
pub struct Intake {
    pub stream: StreamView,
    pub actions: Seq<ActionView>,
    pub fits: bool,
}

/// What the bytes of a data packet do to a stream that is received.
pub open spec fn intake(
    from: FromView,
    message: StreamMessage,
    fec: Map<u64, FecBatchWindow>,
    packet: views::DataView,
    now: Timestamp,
) -> Intake {
    let number = streaming::seq_number(packet.batch_id, packet.fec_info.batch_pos);
    let at = packet.byte_range_start;
    let from1 = from.arrived(number);
    let fec1 = session_fec::with_packet(fec, packet.batch_id, packet.fec_info, at, now);
    if !from1.buffer.accepts(at.0 as int, packet.payload.len() as int) {
        Intake {
            stream: StreamView { streaming: StreamingView::From(from1), message, fec: fec1 },
            actions: from.arrival_observed(number),
            fits: false,
        }
    } else {
        let from2 = FromView {
            buffer: from1.buffer.written(at.0 as int, packet.payload),
            ..from1
        };
        let from3 = from2.cleared(at);
        let message1 = moved(message, from3.buffer.head);
        Intake {
            stream: StreamView {
                streaming: StreamingView::From(from3),
                message: message1,
                fec: fec1,
            },
            actions: from.arrival_observed(number) + from2.clear_observed(at, now) + seq![
                ActionView::Publish { session: from.session_id, message: message1 },
                ActionView::Observe(
                    Observation::BufferState {
                        session: packet.session_id,
                        head: from3.buffer.head as u64,
                        len: from3.buffer.data.len() as u64,
                    },
                ),
            ],
            fits: true,
        }
    }
}

/// What a data packet does to a stream that is received: its bytes are written, the
/// sender is told when the stream has arrived, and otherwise what is missing is asked for
/// at the end of a batch.
pub open spec fn data_step(
    from: FromView,
    message: StreamMessage,
    fec: Map<u64, FecBatchWindow>,
    packet: views::DataView,
    address: Address,
    now: Timestamp,
) -> StreamStep {
    let taken = intake(from, message, fec, packet, now);
    let from1 = taken.stream.streaming->From_0;
    if !taken.fits {
        StreamStep { stream: taken.stream, actions: taken.actions, outcome: Outcome::Refused }
    } else if arrived(from1, taken.stream.message) {
        StreamStep {
            stream: taken.stream,
            actions: taken.actions.push(
                ActionView::Send {
                    packet: requests::done_view(packet.session_id, now),
                    addr: address,
                },
            ),
            outcome: Outcome::Done,
        }
    } else {
        let settled = packet.fec_info.batch_pos + 1 == packet.fec_info.batch_size;
        let step = request_step(
            from1,
            taken.stream.message,
            taken.stream.fec,
            settled,
            packet.session_id,
            address,
            now,
        );
        StreamStep { actions: taken.actions + step.actions, ..step }
    }
}

/// What a recovered packet says.
#[verifier::ext_equal]
pub struct RecoveredView {
    pub at: BytePosition,
    pub payload: Seq<u8>,
}

/// What recovered packets say.
pub open spec fn recovered_views(packets: Seq<RecoverdPacket>) -> Seq<RecoveredView> {
    Seq::new(
        packets.len(),
        |i: int|
            RecoveredView { at: packets[i].byte_range_start, payload: packets[i].payload@ },
    )
}

/// The writing of recovered packets, up to the first that does not fit.
#[verifier::ext_equal]
pub struct RecoveryStep {
    pub from: FromView,
    pub message: StreamMessage,
    pub actions: Seq<ActionView>,
    pub fits: bool,
}

impl RecoveryStep {
    /// One more packet.
    pub open spec fn step(self, packet: RecoveredView, now: Timestamp) -> RecoveryStep {
        if !self.fits {
            self
        } else if !self.from.buffer.accepts(packet.at.0 as int, packet.payload.len() as int) {
            RecoveryStep { fits: false, ..self }
        } else {
            let from1 = FromView {
                buffer: self.from.buffer.written(packet.at.0 as int, packet.payload),
                ..self.from
            };
            let from2 = from1.cleared(packet.at);
            let message = StreamMessage { head: from2.buffer.head as usize, ..self.message };
            RecoveryStep {
                from: from2,
                message,
                actions: self.actions + from1.clear_observed(packet.at, now) + seq![
                    ActionView::Publish { session: self.from.session_id, message },
                ],
                fits: true,
            }
        }
    }

    /// The same, after other things to do.
    pub open spec fn after(self, first: Seq<ActionView>) -> RecoveryStep {
        RecoveryStep { actions: first + self.actions, ..self }
    }

    /// The packets in turn.
    pub open spec fn steps(self, packets: Seq<RecoveredView>, now: Timestamp) -> RecoveryStep
        decreases packets.len(),
    {
        if packets.len() == 0 {
            self
        } else {
            self.steps(packets.drop_last(), now).step(packets.last(), now)
        }
    }
}

/// What is observed when a batch was recovered.
pub open spec fn recovery_observed(
    session: SessionId,
    fec: Map<u64, FecBatchWindow>,
    batch_id: BatchID,
    count: int,
    now: Timestamp,
) -> Seq<ActionView> {
    (if 0 < count <= u32::MAX {
        seq![
            ActionView::Observe(Observation::PacketsRecovered { session, count: count as u32 }),
        ]
    } else {
        seq![]
    }) + (if fec.dom().contains(batch_id.0 as u64) {
        seq![
            ActionView::Observe(
                Observation::BatchRecovered {
                    session,
                    latency_ms: now.since(fec[batch_id.0 as u64].created_at),
                },
            ),
        ]
    } else {
        seq![]
    })
}

/// What a recovered batch does to a stream that is received. The application gets what
/// arrived when the stream has.
pub open spec fn recovered_step(
    from: FromView,
    message: StreamMessage,
    fec: Map<u64, FecBatchWindow>,
    batch_id: BatchID,
    packets: Seq<RecoveredView>,
    session: SessionId,
    address: Address,
    now: Timestamp,
) -> StreamStep {
    let fec1 = fec.remove(batch_id.0 as u64);
    let message1 = StreamMessage { approved: Some(true), ..message };
    let begin = RecoveryStep {
        from,
        message: message1,
        actions: recovery_observed(session, fec, batch_id, packets.len() as int, now) + seq![
            ActionView::Publish { session: from.session_id, message: message1 },
        ],
        fits: true,
    };
    let all = begin.steps(packets, now);
    let stream = StreamView {
        streaming: StreamingView::From(all.from),
        message: all.message,
        fec: fec1,
    };
    if !all.fits {
        StreamStep { stream, actions: all.actions, outcome: Outcome::Refused }
    } else if arrived(all.from, all.message) {
        let closed = StreamMessage { closed: true, ..all.message };
        StreamStep {
            stream: StreamView { message: closed, ..stream },
            actions: all.actions + seq![
                ActionView::Send { packet: requests::done_view(session, now), addr: address },
                ActionView::Received { session: from.session_id, data: all.from.buffer.data },
                ActionView::Publish { session: from.session_id, message: closed },
            ],
            outcome: Outcome::Done,
        }
    } else {
        let step = request_step(all.from, all.message, fec1, true, session, address, now);
        StreamStep { actions: all.actions + step.actions, ..step }
    }
}

impl StreamView {
    /// Whether pieces of the stream may be sent.
    pub open spec fn sends(self) -> bool {
        self.streaming is To && !self.message.paused && !self.message.closed
    }

    /// The buffer that is sent from.
    pub open spec fn source(self) -> ReadableView {
        self.streaming->To_0.buffer
    }

    /// The stream once the next `n` pieces have been taken.
    pub open spec fn taken(self, n: int) -> StreamView {
        let to = self.streaming->To_0;
        let count = to.buffer.count(n);
        StreamView {
            streaming: StreamingView::To(ToView { buffer: to.buffer.taken(n), ..to }),
            message: StreamMessage {
                head: (if self.message.head + count * 1384 <= to.buffer.data.len() {
                    self.message.head + count * 1384
                } else {
                    to.buffer.data.len() as int
                }) as usize,
                ..self.message
            },
            ..self
        }
    }
}

/// The piece of `data` that a range asks for: at most one chunk, cut off at the end.
pub open spec fn range_piece(data: Seq<u8>, range: ByteRange) -> ChunkView {
    let start = range.start.0 as int;
    let length = if range.length <= 1384 {
        range.length as int
    } else {
        1384
    };
    ChunkView {
        position: start,
        payload: data.subrange(
            start,
            if start + length <= data.len() {
                start + length
            } else {
                data.len() as int
            },
        ),
    }
}

/// The pieces of `data` that ranges ask for. Ranges past the end have none.
pub open spec fn range_pieces(data: Seq<u8>, ranges: Seq<ByteRange>) -> Seq<ChunkView>
    decreases ranges.len(),
{
    if ranges.len() == 0 {
        seq![]
    } else {
        let rest = range_pieces(data, ranges.drop_last());
        if ranges.last().start.0 <= data.len() {
            rest.push(range_piece(data, ranges.last()))
        } else {
            rest
        }
    }
}

impl StreamState {
    /// The invariant of the buffers.
    pub open spec fn wf(self) -> bool {
        match self.streaming {
            Streaming::To(t) => t.buffer@.wf(),
            Streaming::From(f) => f.wf(),
        }
    }

    /// Takes the next `n` pieces of a stream that is sent, or what is left. Gives nothing
    /// of one that is received, paused or closed.
    pub fn get_chunks(&mut self, n: usize) -> (r: Option<Vec<Chunk>>)
        requires
            old(self).wf(),
        ensures
            final(self).wf(),
            r is Some <==> old(self)@.sends(),
            r is None ==> final(self)@ == old(self)@,
            r matches Some(chunks) ==> types::chunk_views(chunks@) == old(self)@.source().pieces(
                n as int,
            ) && final(self)@ == old(self)@.taken(n as int),
    {
        if self.message.paused || self.message.closed {
            return None;
        }
        let head: usize = self.message.head;
        match &mut self.streaming {
            Streaming::From(_) => None,
            Streaming::To(to) => {
                let len: usize = to.buffer.len();
                let ghost before = to.buffer@;
                let chunks: Vec<Chunk> = to.buffer.take(n);
                proof {
                    assert(types::chunk_views(chunks@).len() == before.pieces(n as int).len());
                    assert(before.count(n as int) <= types::pieces_in(len - before.head));
                    assert(types::pieces_in(len - before.head) * 1384 <= len + 1384)
                        by (nonlinear_arith)
                        requires
                            0 <= before.head <= len,
                            types::pieces_in(len - before.head) == if len - before.head <= 0 {
                                0
                            } else {
                                (len - before.head + 1384 - 1) / 1384
                            },
                    ;
                }
                let moved: usize = if chunks.len() > (len / 1384) {
                    len
                } else {
                    chunks.len() * 1384
                };
                let new_head: usize = if head >= len || moved >= len - head {
                    len
                } else {
                    head + moved
                };
                self.message.head = new_head;
                Some(chunks)
            },
        }
    }

    /// The pieces of a stream that is sent for each of the ranges: at most one chunk of
    /// each. Gives nothing of a stream that is received, paused or closed.
    pub fn retransmit(&self, wanted_ranges: &Vec<ByteRange>) -> (r: Option<Vec<Chunk>>)
        requires
            self.wf(),
        ensures
            r is Some <==> self@.sends(),
            r matches Some(chunks) ==> types::chunk_views(chunks@) == range_pieces(
                self@.source().data,
                wanted_ranges@,
            ),
    {
        if self.message.paused || self.message.closed {
            return None;
        }
        match &self.streaming {
            Streaming::From(_) => None,
            Streaming::To(to) => {
                let mut chunks: Vec<Chunk> = Vec::new();
                let mut i: usize = 0;
                let ghost data = to.buffer@.data;
                assert(types::chunk_views(chunks@) =~= range_pieces(
                    data,
                    wanted_ranges@.take(0),
                ));
                while i < wanted_ranges.len()
                    invariant
                        i <= wanted_ranges@.len(),
                        to.buffer@.wf(),
                        data == to.buffer@.data,
                        types::chunk_views(chunks@) == range_pieces(
                            data,
                            wanted_ranges@.take(i as int),
                        ),
                    decreases wanted_ranges.len() - i,
                {
                    let range: ByteRange = wanted_ranges[i];
                    let start: usize = range.start.0 as usize;
                    let len: usize = if range.length <= 1384 {
                        range.length as usize
                    } else {
                        1384
                    };
                    let end: usize = if start >= to.buffer.len() || len >= to.buffer.len() - start {
                        to.buffer.len()
                    } else {
                        start + len
                    };
                    assert(wanted_ranges@.take(i + 1).drop_last() =~= wanted_ranges@.take(
                        i as int,
                    ));
                    let ghost before = chunks@;
                    match to.buffer.read(start..end) {
                        Some(payload) => {
                            let copy: Vec<u8> = crate::wire::copy_range(
                                payload,
                                0,
                                payload.len(),
                            );
                            assert(copy@ =~= payload@);
                            chunks.push(Chunk { position: range.start, payload: copy });
                            assert(types::chunk_views(chunks@) =~= types::chunk_views(before).push(
                                chunks@.last()@,
                            ));
                            assert(chunks@.last()@ =~= range_piece(data, range));
                        },
                        None => {},
                    }
                    i += 1;
                }
                assert(wanted_ranges@.take(i as int) =~= wanted_ranges@);
                Some(chunks)
            },
        }
    }

    /// Marks the stream as closed.
    pub fn close(&mut self)
        ensures
            final(self)@ == (StreamView {
                message: StreamMessage { closed: true, ..old(self)@.message },
                ..old(self)@
            }),
            final(self).streaming == old(self).streaming,
    {
        self.message.closed = true;
    }

    /// Goes on with the stream.
    pub fn start(&mut self)
        ensures
            final(self)@ == (StreamView {
                message: StreamMessage { paused: false, ..old(self)@.message },
                ..old(self)@
            }),
            final(self).streaming == old(self).streaming,
    {
        self.message.paused = false;
    }

    /// Holds the stream.
    pub fn pause(&mut self)
        ensures
            final(self)@ == (StreamView {
                message: StreamMessage { paused: true, ..old(self)@.message },
                ..old(self)@
            }),
            final(self).streaming == old(self).streaming,
    {
        self.message.paused = true;
    }
}

impl StreamState {
    /// Asks for what is missing from a stream that is received, if it is time for that.
    fn request_missing(
        &mut self,
        settled: bool,
        session_id: SessionId,
        address: Address,
        now: Timestamp,
        actions: &mut Vec<Action>,
    )
        requires
            old(self).wf(),
            old(self)@.streaming is From,
        ensures
            final(self).wf(),
            ({
                let step = request_step(
                    old(self)@.streaming->From_0,
                    old(self)@.message,
                    old(self)@.fec,
                    settled,
                    session_id,
                    address,
                    now,
                );
                &&& final(self)@ == step.stream
                &&& messages::action_views(final(actions)@) == messages::action_views(
                    old(actions)@,
                ) + step.actions
            }),
    {
        let ghost views0 = messages::action_views(actions@);
        let ghost fec0 = self.fec@;
        let spans: Vec<Span> = self.fec.active_byte_ranges(now);
        let ghost batches = session_fec::live(fec0, now);
        match &mut self.streaming {
            Streaming::To(_) => {},
            Streaming::From(from) => {
                let ghost from0 = from@;
                proof {
                    streaming::lemma_outside(
                        streaming::all_positions(from0.all_holes()),
                        spans@,
                        batches,
                    );
                    streaming::lemma_outside(
                        streaming::all_positions(from0.best_holes()),
                        spans@,
                        batches,
                    );
                }
                if from.buffer.head_at_end() {
                    let picked: Vec<ByteRange> = from.finalize_sweep_pick(&spans, now, actions);
                    requests::dispatch_retransmit_request(
                        session_id,
                        address,
                        picked,
                        now,
                        actions,
                    );
                } else if settled {
                    let picked: Vec<ByteRange> = from.score_policy_pick(&spans, now, actions);
                    requests::dispatch_retransmit_request(
                        session_id,
                        address,
                        picked,
                        now,
                        actions,
                    );
                }
                assert(messages::action_views(actions@) =~= views0 + request_step(
                    from0,
                    self.message,
                    fec0,
                    settled,
                    session_id,
                    address,
                    now,
                ).actions);
            },
        }
    }
}

impl StreamState {
    /// Whether the stream has arrived.
    fn has_arrived(&self) -> (r: bool)
        requires
            self.wf(),
            self@.streaming is From,
        ensures
            r == arrived(self@.streaming->From_0, self@.message),
    {
        let complete: bool = match self.message.complete {
            Some(allow_partial) => allow_partial,
            None => false,
        };
        match &self.streaming {
            Streaming::To(_) => false,
            Streaming::From(from) => from.buffer.is_done() || (complete
                && from.buffer.head_at_end()),
        }
    }

    /// Writes the bytes of a data packet into a stream that is received. Says whether
    /// they fit.
    fn write_data(&mut self, packet: &DataPacket, now: Timestamp, actions: &mut Vec<Action>) -> (fits:
        bool)
        requires
            old(self).wf(),
            old(self)@.streaming is From,
        ensures
            final(self).wf(),
            final(self)@.streaming is From,
            ({
                let taken = intake(
                    old(self)@.streaming->From_0,
                    old(self)@.message,
                    old(self)@.fec,
                    packet@,
                    now,
                );
                &&& fits == taken.fits
                &&& final(self)@ == taken.stream
                &&& messages::action_views(final(actions)@) == messages::action_views(
                    old(actions)@,
                ) + taken.actions
            }),
    {
        let ghost views0 = messages::action_views(actions@);
        let ghost taken = intake(
            self@.streaming->From_0,
            self@.message,
            self@.fec,
            packet@,
            now,
        );
        self.fec.add_data(packet.batch_id, packet.fec_info, packet.byte_range_start, now);
        match &mut self.streaming {
            Streaming::To(_) => false,
            Streaming::From(from) => {
                from.note_arrival(packet.batch_id, packet.fec_info.batch_pos, actions);
                match from.buffer.write(packet.byte_range_start, packet.payload.as_slice()) {
                    None => {
                        assert(messages::action_views(actions@) =~= views0 + taken.actions);
                        return false;
                    },
                    Some(_) => {},
                }
                from.clear_pending(packet.byte_range_start, now, actions);
                self.message.head = from.buffer.head();
                self.message.approved = Some(true);
                messages::push_action(
                    actions,
                    Action::Publish { session: from.session_id, message: self.message },
                );
                messages::push_action(
                    actions,
                    Action::Observe(
                        Observation::BufferState {
                            session: packet.session_id,
                            head: from.buffer.head() as u64,
                            len: from.buffer.len() as u64,
                        },
                    ),
                );
                assert(messages::action_views(actions@) =~= views0 + taken.actions);
                true
            },
        }
    }

    /// Takes a data packet into a stream that is received.
    pub fn take_data(
        &mut self,
        packet: &DataPacket,
        address: Address,
        now: Timestamp,
        actions: &mut Vec<Action>,
    ) -> (outcome: Outcome)
        requires
            old(self).wf(),
            old(self)@.streaming is From,
        ensures
            final(self).wf(),
            final(self)@.streaming is From,
            ({
                let step = data_step(
                    old(self)@.streaming->From_0,
                    old(self)@.message,
                    old(self)@.fec,
                    packet@,
                    address,
                    now,
                );
                &&& outcome == step.outcome
                &&& final(self)@ == step.stream
                &&& messages::action_views(final(actions)@) == messages::action_views(
                    old(actions)@,
                ) + step.actions
            }),
    {
        let ghost views0 = messages::action_views(actions@);
        let ghost step = data_step(
            self@.streaming->From_0,
            self@.message,
            self@.fec,
            packet@,
            address,
            now,
        );
        if !self.write_data(packet, now, actions) {
            return Outcome::Refused;
        }
        if self.has_arrived() {
            requests::send_done(packet.session_id, address, now, actions);
            assert(messages::action_views(actions@) =~= views0 + step.actions);
            return Outcome::Done;
        }
        let settled: bool = packet.fec_info.batch_pos as u16 + 1
            == packet.fec_info.batch_size as u16;
        self.request_missing(settled, packet.session_id, address, now, actions);
        assert(messages::action_views(actions@) =~= views0 + step.actions);
        Outcome::GoesOn
    }
}

impl StreamState {
    /// Writes one recovered packet. Says whether it fits.
    fn write_recovered(
        &mut self,
        packet: &RecoverdPacket,
        now: Timestamp,
        actions: &mut Vec<Action>,
    ) -> (fits: bool)
        requires
            old(self).wf(),
            old(self)@.streaming is From,
        ensures
            final(self).wf(),
            final(self)@.streaming is From,
            final(self)@.fec == old(self)@.fec,
            ({
                let before = RecoveryStep {
                    from: old(self)@.streaming->From_0,
                    message: old(self)@.message,
                    actions: messages::action_views(old(actions)@),
                    fits: true,
                };
                let after = before.step(
                    RecoveredView { at: packet.byte_range_start, payload: packet.payload@ },
                    now,
                );
                &&& fits == after.fits
                &&& final(self)@.streaming->From_0 == after.from
                &&& final(self)@.message == after.message
                &&& messages::action_views(final(actions)@) == after.actions
            }),
    {
        let ghost views0 = messages::action_views(actions@);
        let ghost from0 = self@.streaming->From_0;
        match &mut self.streaming {
            Streaming::To(_) => false,
            Streaming::From(from) => {
                match from.buffer.write(packet.byte_range_start, packet.payload.as_slice()) {
                    None => {
                        return false;
                    },
                    Some(_) => {},
                }
                let ghost from1 = from@;
                from.clear_pending(packet.byte_range_start, now, actions);
                self.message.head = from.buffer.head();
                messages::push_action(
                    actions,
                    Action::Publish { session: from.session_id, message: self.message },
                );
                assert(messages::action_views(actions@) =~= views0 + from1.clear_observed(
                    packet.byte_range_start,
                    now,
                ) + seq![
                    ActionView::Publish { session: from0.session_id, message: self.message },
                ]);
                true
            },
        }
    }

    /// Writes recovered packets, up to the first that does not fit. Says whether all fit.
    fn write_all(
        &mut self,
        packets: &Vec<RecoverdPacket>,
        now: Timestamp,
        actions: &mut Vec<Action>,
    ) -> (fits: bool)
        requires
            old(self).wf(),
            old(self)@.streaming is From,
        ensures
            final(self).wf(),
            final(self)@.streaming is From,
            final(self)@.fec == old(self)@.fec,
            ({
                let begin = RecoveryStep {
                    from: old(self)@.streaming->From_0,
                    message: old(self)@.message,
                    actions: messages::action_views(old(actions)@),
                    fits: true,
                };
                let after = begin.steps(recovered_views(packets@), now);
                &&& fits == after.fits
                &&& final(self)@.streaming->From_0 == after.from
                &&& final(self)@.message == after.message
                &&& messages::action_views(final(actions)@) == after.actions
            }),
    {
        let ghost begin = RecoveryStep {
            from: self@.streaming->From_0,
            message: self@.message,
            actions: messages::action_views(actions@),
            fits: true,
        };
        let ghost all = recovered_views(packets@);
        assert(all.take(0) =~= seq![]);
        let mut i: usize = 0;
        while i < packets.len()
            invariant
                i <= packets@.len(),
                all == recovered_views(packets@),
                self.wf(),
                self@.streaming is From,
                self@.fec == old(self)@.fec,
                begin.steps(all.take(i as int), now) == (RecoveryStep {
                    from: self@.streaming->From_0,
                    message: self@.message,
                    actions: messages::action_views(actions@),
                    fits: true,
                }),
                begin == (RecoveryStep {
                    from: old(self)@.streaming->From_0,
                    message: old(self)@.message,
                    actions: messages::action_views(old(actions)@),
                    fits: true,
                }),
            decreases packets.len() - i,
        {
            assert(all.take(i + 1).drop_last() =~= all.take(i as int));
            assert(all.take(i + 1).last() == all[i as int]);
            let fits: bool = self.write_recovered(&packets[i], now, actions);
            assert(begin.steps(all.take(i + 1), now) == (RecoveryStep {
                from: self@.streaming->From_0,
                message: self@.message,
                actions: messages::action_views(actions@),
                fits,
            }));
            if !fits {
                proof {
                    lemma_steps_stop(begin, all, i as int, now);
                }
                return false;
            }
            i += 1;
        }
        assert(all.take(i as int) =~= all);
        true
    }

    /// Takes note that a batch was recovered.
    fn note_recovery(
        &mut self,
        recovered: &Recovered,
        session_id: SessionId,
        now: Timestamp,
        actions: &mut Vec<Action>,
    )
        requires
            old(self).wf(),
            old(self)@.streaming is From,
        ensures
            final(self).wf(),
            final(self)@ == (StreamView {
                fec: old(self)@.fec.remove(recovered.batch_id.0 as u64),
                message: StreamMessage { approved: Some(true), ..old(self)@.message },
                ..old(self)@
            }),
            messages::action_views(final(actions)@) == messages::action_views(old(actions)@) + (
            recovery_observed(
                session_id,
                old(self)@.fec,
                recovered.batch_id,
                recovered.packets@.len() as int,
                now,
            ) + seq![
                ActionView::Publish {
                    session: old(self)@.streaming->From_0.session_id,
                    message: final(self)@.message,
                },
            ]),
    {
        let ghost views0 = messages::action_views(actions@);
        let stream_session: SessionId = match &self.streaming {
            Streaming::To(_) => session_id,
            Streaming::From(from) => from.session_id,
        };
        let count: usize = recovered.packets.len();
        if count > 0 && count as u64 <= u32::MAX as u64 {
            messages::push_action(
                actions,
                Action::Observe(
                    Observation::PacketsRecovered { session: session_id, count: count as u32 },
                ),
            );
        }
        match self.fec.batch_started_at(recovered.batch_id) {
            Some(start) => {
                messages::push_action(
                    actions,
                    Action::Observe(
                        Observation::BatchRecovered {
                            session: session_id,
                            latency_ms: now.millis_since(start),
                        },
                    ),
                );
            },
            None => {},
        }
        assert(messages::action_views(actions@) =~= views0 + recovery_observed(
            session_id,
            self@.fec,
            recovered.batch_id,
            recovered.packets@.len() as int,
            now,
        ));
        self.fec.evict(recovered.batch_id);
        self.message.approved = Some(true);
        messages::push_action(
            actions,
            Action::Publish { session: stream_session, message: self.message },
        );
        assert(messages::action_views(actions@) =~= views0 + (recovery_observed(
            session_id,
            old(self)@.fec,
            recovered.batch_id,
            recovered.packets@.len() as int,
            now,
        ) + seq![
            ActionView::Publish {
                session: old(self)@.streaming->From_0.session_id,
                message: self.message,
            },
        ]));
    }

    /// Takes a recovered batch into a stream that is received.
    pub fn take_recovered(
        &mut self,
        recovered: &Recovered,
        session_id: SessionId,
        address: Address,
        now: Timestamp,
        actions: &mut Vec<Action>,
    ) -> (outcome: Outcome)
        requires
            old(self).wf(),
            old(self)@.streaming is From,
        ensures
            final(self).wf(),
            final(self)@.streaming is From,
            ({
                let step = recovered_step(
                    old(self)@.streaming->From_0,
                    old(self)@.message,
                    old(self)@.fec,
                    recovered.batch_id,
                    recovered_views(recovered.packets@),
                    session_id,
                    address,
                    now,
                );
                &&& outcome == step.outcome
                &&& final(self)@ == step.stream
                &&& messages::action_views(final(actions)@) == messages::action_views(
                    old(actions)@,
                ) + step.actions
            }),
    {
        let ghost views0 = messages::action_views(actions@);
        let ghost from0 = self@.streaming->From_0;
        let ghost all = recovered_views(recovered.packets@);
        let ghost step = recovered_step(
            from0,
            self@.message,
            self@.fec,
            recovered.batch_id,
            all,
            session_id,
            address,
            now,
        );
        let stream_session: SessionId = match &self.streaming {
            Streaming::To(_) => session_id,
            Streaming::From(from) => from.session_id,
        };
        self.note_recovery(recovered, session_id, now, actions);
        let ghost begin = RecoveryStep {
            from: from0,
            message: self@.message,
            actions: recovery_observed(
                session_id,
                old(self)@.fec,
                recovered.batch_id,
                all.len() as int,
                now,
            ) + seq![ActionView::Publish { session: from0.session_id, message: self@.message }],
            fits: true,
        };
        proof {
            lemma_steps_prefix(begin, views0, all, now);
        }
        if !self.write_all(&recovered.packets, now, actions) {
            return Outcome::Refused;
        }
        assert(messages::action_views(actions@) == views0 + begin.steps(all, now).actions);
        if self.has_arrived() {
            requests::send_done(session_id, address, now, actions);
            match &self.streaming {
                Streaming::From(from) => {
                    messages::push_action(
                        actions,
                        Action::Received { session: stream_session, data: from.buffer.to_vec() },
                    );
                },
                Streaming::To(_) => {},
            }
            self.message.closed = true;
            messages::push_action(
                actions,
                Action::Publish { session: stream_session, message: self.message },
            );
            assert(messages::action_views(actions@) =~= views0 + step.actions);
            return Outcome::Done;
        }
        self.request_missing(true, session_id, address, now, actions);
        assert(messages::action_views(actions@) =~= views0 + step.actions);
        Outcome::GoesOn
    }
}

proof fn lemma_steps_prefix(
    begin: RecoveryStep,
    prefix: Seq<ActionView>,
    packets: Seq<RecoveredView>,
    now: Timestamp,
)
    ensures
        begin.after(prefix).steps(packets, now) == begin.steps(packets, now).after(prefix),
    decreases packets.len(),
{
    let with = begin.after(prefix);
    if packets.len() > 0 {
        lemma_steps_prefix(begin, prefix, packets.drop_last(), now);
        let a = begin.steps(packets.drop_last(), now);
        let b = with.steps(packets.drop_last(), now);
        assert(b.step(packets.last(), now).actions =~= prefix + a.step(
            packets.last(),
            now,
        ).actions);
    }
}

proof fn lemma_steps_stop(begin: RecoveryStep, packets: Seq<RecoveredView>, n: int, now: Timestamp)
    requires
        0 <= n < packets.len(),
        !begin.steps(packets.take(n + 1), now).fits,
    ensures
        begin.steps(packets, now) == begin.steps(packets.take(n + 1), now),
    decreases packets.len(),
{
    if n + 1 == packets.len() {
        assert(packets.take(n + 1) =~= packets);
    } else {
        assert(packets.drop_last().take(n + 1) =~= packets.take(n + 1));
        lemma_steps_stop(begin, packets.drop_last(), n, now);
    }
}

} // verus!
