//! The batches in which a stream is sent.
use vstd::prelude::*;

use crate::api::types;
use crate::api::types::{Chunk, ChunkView};
use crate::manager::connection::{ConnectionStates, SessionStateView, SessionStates};
use crate::manager::fields::{
    BatchID, BytePosition, Options, PacketType, SessionId, Version, CURRENT_VERSION,
};
use crate::manager::identity::Address;
use crate::manager::packets::{DataPacket, Packet};
use crate::manager::ranges::{ByteRange, FECInfo, FecConfig};
use crate::manager::state::{ProtocolState, StateView};
use crate::manager::stream_state;
use crate::manager::stream_state::{StreamState, StreamView, Streaming, StreamingView};
use crate::manager::streaming;
use crate::manager::streaming::ToView;
use crate::manager::types::Timestamp;
use crate::manager::views;
use crate::utils::chunk_set::ChunkSet;
use crate::utils::messages;
use crate::utils::messages::{Action, ActionView};
use crate::utils::Flags;

verus! {

/// How many packets a batch has.
pub const PACKET_COUNT_PER_BATCH: usize = 28;

/// Whether every number is one of a chunk that begins at a position that there is.
pub open spec fn chunk_numbers(extras: Seq<usize>) -> bool {
    forall|i: int| 0 <= i < extras.len() ==> (#[trigger] extras[i]) <= 3103300
}

/// The bytes of a chunk.
pub open spec fn chunk_range(number: usize) -> ByteRange {
    ByteRange { start: BytePosition((number * 1384) as u32), length: 1384 }
}

/// The bytes of chunks.
pub open spec fn chunk_ranges(numbers: Seq<usize>) -> Seq<ByteRange> {
    Seq::new(numbers.len(), |i: int| chunk_range(numbers[i]))
}

/// The smaller of two numbers.
pub open spec fn least(a: int, b: int) -> int {
    if a <= b {
        a
    } else {
        b
    }
}

/// Whether a turn of the sender goes to chunks that were asked for again or passed over:
/// only when nothing else is left.
pub open spec fn turns_to_extras(stream: StreamView, extras: Seq<usize>, n: int) -> bool {
    stream.source().pieces(n).len() == 0 && extras.len() > 0
}

/// What is sent in one turn, of at most `n` packets.
pub open spec fn batch_chunks(stream: StreamView, extras: Seq<usize>, n: int) -> Seq<ChunkView> {
    if turns_to_extras(stream, extras, n) {
        stream_state::range_pieces(
            stream.source().data,
            chunk_ranges(extras.take(least(n, extras.len() as int))),
        )
    } else {
        stream.source().pieces(n)
    }
}

/// The chunks that still wait after one turn.
pub open spec fn extras_left(stream: StreamView, extras: Seq<usize>, n: int) -> Seq<usize> {
    if turns_to_extras(stream, extras, n) {
        extras.skip(least(n, extras.len() as int))
    } else {
        extras
    }
}

/// The stream after one turn: what was sent is a batch of its own.
pub open spec fn after_batch(stream: StreamView, extras: Seq<usize>, n: int) -> StreamView {
    let taken = stream.taken(n);
    if batch_chunks(stream, extras, n).len() == 0 {
        taken
    } else {
        let to = taken.streaming->To_0;
        StreamView {
            streaming: StreamingView::To(
                ToView { current_batch: streaming::batch_after(to.current_batch), ..to },
            ),
            ..taken
        }
    }
}

/// The data packet for the piece `i` of a batch.
pub open spec fn data_view(
    chunks: Seq<ChunkView>,
    i: int,
    session: SessionId,
    batch_id: BatchID,
    config: FecConfig,
    now: Timestamp,
) -> views::PacketView {
    views::PacketView::Data(
        views::DataView {
            version: Version(CURRENT_VERSION),
            opts: Options(0),
            packet_type: PacketType::Data,
            batch_id,
            fec_info: FECInfo {
                batch_size: chunks.len() as u8,
                batch_pos: i as u8,
                recovery_count: least(config.recovery_count as int, chunks.len() as int) as u8,
            },
            session_id: session,
            timestamp: now,
            byte_range_start: BytePosition(chunks[i].position as u32),
            payload: chunks[i].payload,
        },
    )
}

/// The data packets of a batch.
pub open spec fn data_sends(
    chunks: Seq<ChunkView>,
    session: SessionId,
    addr: Address,
    batch_id: BatchID,
    config: FecConfig,
    now: Timestamp,
) -> Seq<ActionView> {
    Seq::new(
        chunks.len(),
        |i: int|
            ActionView::Send {
                packet: data_view(chunks, i, session, batch_id, config, now),
                addr,
            },
    )
}

/// Sends a batch.
pub fn send_data_packets(
    chunks: Vec<Chunk>,
    session_id: SessionId,
    address: Address,
    current_batch: BatchID,
    fec_config: FecConfig,
    now: Timestamp,
    actions: &mut Vec<Action>,
)
    requires
        chunks@.len() <= 255,
    ensures
        messages::appended(
            old(actions)@,
            final(actions)@,
            data_sends(
                types::chunk_views(chunks@),
                session_id,
                address,
                current_batch,
                fec_config,
                now,
            ),
        ),
{
    let ghost acts0 = actions@;
    let ghost pieces = types::chunk_views(chunks@);
    let ghost all = data_sends(pieces, session_id, address, current_batch, fec_config, now);
    let len: u8 = chunks.len() as u8;
    let recovery_count: u8 = if fec_config.recovery_count <= len {
        fec_config.recovery_count
    } else {
        len
    };
    let mut i: usize = 0;
    while i < chunks.len()
        invariant
            i <= chunks@.len() <= 255,
            len == chunks@.len(),
            recovery_count == least(fec_config.recovery_count as int, chunks@.len() as int),
            pieces == types::chunk_views(chunks@),
            all == data_sends(pieces, session_id, address, current_batch, fec_config, now),
            messages::action_views(actions@) =~= messages::action_views(acts0) + all.take(i as int),
        decreases chunks.len() - i,
    {
        let chunk: &Chunk = &chunks[i];
        let payload: Vec<u8> = crate::wire::copy_range(
            chunk.payload.as_slice(),
            0,
            chunk.payload.len(),
        );
        assert(payload@ =~= chunk.payload@);
        let packet: Box<DataPacket> = DataPacket::new(
            Options::none(),
            current_batch,
            FECInfo { batch_size: len, batch_pos: i as u8, recovery_count },
            session_id,
            chunk.position,
            payload,
            now,
        );
        assert(views::PacketView::Data(packet@) =~= data_view(
            pieces,
            i as int,
            session_id,
            current_batch,
            fec_config,
            now,
        ));
        messages::push_action(
            actions,
            Action::Send { packet: Packet::DataPacket(packet), addr: address },
        );
        assert(all.take(i + 1) =~= all.take(i as int).push(all[i as int]));
        i += 1;
    }
    assert(all.take(i as int) =~= all);
}

/// A batch that is to be sent.
pub struct Batch {
    pub chunks: Vec<Chunk>,
    pub id: BatchID,
    pub fec_config: FecConfig,
}

proof fn lemma_pieces_bound(data: Seq<u8>, ranges: Seq<ByteRange>)
    ensures
        stream_state::range_pieces(data, ranges).len() <= ranges.len(),
    decreases ranges.len(),
{
    if ranges.len() > 0 {
        lemma_pieces_bound(data, ranges.drop_last());
    }
}

fn ranges_of(numbers: &Vec<usize>) -> (ranges: Vec<ByteRange>)
    requires
        chunk_numbers(numbers@),
    ensures
        ranges@ == chunk_ranges(numbers@),
{
    let mut ranges: Vec<ByteRange> = Vec::new();
    let mut i: usize = 0;
    while i < numbers.len()
        invariant
            i <= numbers@.len(),
            chunk_numbers(numbers@),
            ranges@ =~= chunk_ranges(numbers@).take(i as int),
        decreases numbers.len() - i,
    {
        let number: usize = numbers[i];
        ranges.push(ByteRange::new(BytePosition((number * 1384) as u32), 1384));
        i += 1;
    }
    assert(ranges@ =~= chunk_ranges(numbers@));
    ranges
}

impl StreamState {
    /// Takes the next batch of a stream that is sent. Chunks that wait have their turn
    /// when nothing else is left. Gives nothing of a stream that is received, paused or
    /// closed, or if there is nothing to send.
    pub fn take_batch(&mut self, n: usize, extras: &mut ChunkSet) -> (r: Option<Batch>)
        requires
            old(self).wf(),
            old(extras).wf(),
            chunk_numbers(old(extras)@),
            n <= 255,
        ensures
            final(self).wf(),
            final(extras).wf(),
            chunk_numbers(final(extras)@),
            !old(self)@.sends() ==> r is None && final(self)@ == old(self)@ && final(extras)@
                == old(extras)@,
            old(self)@.sends() ==> {
                &&& final(self)@ == after_batch(old(self)@, old(extras)@, n as int)
                &&& final(extras)@ == extras_left(old(self)@, old(extras)@, n as int)
                &&& r is Some <==> batch_chunks(old(self)@, old(extras)@, n as int).len() > 0
                &&& r matches Some(batch) ==> {
                    &&& types::chunk_views(batch.chunks@) == batch_chunks(
                        old(self)@,
                        old(extras)@,
                        n as int,
                    )
                    &&& batch.chunks@.len() <= 255
                    &&& batch.id.0 == streaming::batch_after(
                        old(self)@.streaming->To_0.current_batch,
                    )
                    &&& batch.fec_config == old(self)@.streaming->To_0.fec_config
                }
            },
    {
        let ghost before = self@;
        let ghost extras0 = extras@;
        let mut chunks: Vec<Chunk> = match self.get_chunks(n) {
            Some(chunks) => chunks,
            None => {
                return None;
            },
        };
        assert(types::chunk_views(chunks@).len() == chunks@.len());
        assert(before.source().pieces(n as int).len() == before.source().count(n as int) as nat);
        if chunks.len() == 0 && !extras.is_empty() {
            let numbers: Vec<usize> = extras.take_first(n);
            let ghost count = least(n as int, extras0.len() as int);
            assert(numbers@ =~= extras0.take(count));
            assert forall|i: int| 0 <= i < numbers@.len() implies (#[trigger] numbers@[i])
                <= 3103300 by {
                assert(numbers@[i] == extras0[i]);
            }
            assert forall|i: int| 0 <= i < extras@.len() implies (#[trigger] extras@[i])
                <= 3103300 by {
                assert(extras@[i] == extras0[count + i]);
            }
            let ranges: Vec<ByteRange> = ranges_of(&numbers);
            proof {
                lemma_pieces_bound(before.source().data, ranges@);
            }
            match self.retransmit(&ranges) {
                Some(again) => {
                    chunks = again;
                },
                None => {},
            }
            assert(types::chunk_views(chunks@).len() == chunks@.len());
        }
        assert(types::chunk_views(chunks@) == batch_chunks(before, extras0, n as int));
        if chunks.len() == 0 {
            return None;
        }
        match &mut self.streaming {
            Streaming::To(to) => {
                let fec_config: FecConfig = to.fec_config;
                let id: BatchID = to.next_batch_id();
                Some(Batch { chunks, id, fec_config })
            },
            Streaming::From(_) => None,
        }
    }
}

impl StateView {
    /// Whether pieces of the stream of a session may be sent.
    pub open spec fn may_send(self, session: SessionId) -> bool {
        self.sends(session) && self.conn(session).stream().sends()
    }

    /// What a session sends in one turn.
    pub open spec fn turn_chunks(self, session: SessionId, extras: Seq<usize>, n: int) -> Seq<
        ChunkView,
    > {
        batch_chunks(self.conn(session).stream(), extras, n)
    }

    /// The state after one turn of a session.
    pub open spec fn after_turn(self, session: SessionId, extras: Seq<usize>, n: int) -> StateView {
        if self.may_send(session) {
            self.with_conn(
                session,
                self.conn(session).with_state(
                    SessionStateView::Streaming(
                        after_batch(self.conn(session).stream(), extras, n),
                    ),
                ),
            )
        } else {
            self
        }
    }

    /// What one turn of a session tells and sends.
    pub open spec fn turn_actions(
        self,
        session: SessionId,
        extras: Seq<usize>,
        n: int,
        now: Timestamp,
    ) -> Seq<ActionView> {
        if self.may_send(session) {
            let stream = self.conn(session).stream();
            let to = stream.streaming->To_0;
            seq![
                ActionView::Publish { session, message: after_batch(stream, extras, n).message },
            ] + data_sends(
                batch_chunks(stream, extras, n),
                session,
                self.conn(session).addr(),
                BatchID(streaming::batch_after(to.current_batch)),
                to.fec_config,
                now,
            )
        } else {
            seq![]
        }
    }
}

impl ProtocolState {
    /// One turn of a session that sends: the next batch of its stream goes out. Gives the
    /// position of the last packet, if there was one.
    pub fn send_stream_action(
        &mut self,
        session_id: SessionId,
        n: usize,
        extras: &mut ChunkSet,
        now: Timestamp,
        actions: &mut Vec<Action>,
    ) -> (r: Option<BytePosition>)
        requires
            old(self).wf(),
            old(extras).wf(),
            chunk_numbers(old(extras)@),
            n <= 255,
        ensures
            final(self).wf(),
            final(extras).wf(),
            chunk_numbers(final(extras)@),
            final(self)@ == old(self)@.after_turn(session_id, old(extras)@, n as int),
            final(extras)@ == (if old(self)@.may_send(session_id) {
                extras_left(old(self)@.conn(session_id).stream(), old(extras)@, n as int)
            } else {
                old(extras)@
            }),
            messages::appended(
                old(actions)@,
                final(actions)@,
                old(self)@.turn_actions(session_id, old(extras)@, n as int, now),
            ),
            r == (if old(self)@.may_send(session_id) && old(self)@.turn_chunks(
                session_id,
                old(extras)@,
                n as int,
            ).len() > 0 {
                Some(
                    BytePosition(
                        old(self)@.turn_chunks(
                            session_id,
                            old(extras)@,
                            n as int,
                        ).last().position as u32,
                    ),
                )
            } else {
                None
            }),
    {
        let ghost before = self@;
        let ghost extras0 = extras@;
        let ghost acts0 = actions@;
        let mut connection: ConnectionStates = match self.connections.remove(session_id.0) {
            Some(connection) => connection,
            None => {
                assert(self@ =~= before);
                assert(messages::action_views(actions@) =~= messages::action_views(acts0)
                    + before.turn_actions(session_id, extras0, n as int, now));
                return None;
            },
        };
        let address: Address = connection.address();
        let mut batch: Option<Batch> = None;
        match &mut connection {
            ConnectionStates::Handshake { .. } => {},
            ConnectionStates::Established(established) => match &mut established.state {
                SessionStates::Streaming(stream) => {
                    let sends: bool = match &stream.streaming {
                        Streaming::To(_) => !stream.message.paused && !stream.message.closed,
                        Streaming::From(_) => false,
                    };
                    batch = stream.take_batch(n, extras);
                    if sends {
                        messages::push_action(
                            actions,
                            Action::Publish { session: session_id, message: stream.message },
                        );
                    }
                },
                _ => {},
            },
        }
        self.connections.insert(session_id.0, connection);
        assert(self@ =~= before.after_turn(session_id, extras0, n as int));
        match batch {
            Some(batch) => {
                let ghost pieces = types::chunk_views(batch.chunks@);
                let last: BytePosition = batch.chunks[batch.chunks.len() - 1].position;
                assert(pieces.last() == batch.chunks@[batch.chunks@.len() - 1]@);
                send_data_packets(
                    batch.chunks,
                    session_id,
                    address,
                    batch.id,
                    batch.fec_config,
                    now,
                    actions,
                );
                assert(messages::action_views(actions@) =~= messages::action_views(acts0)
                    + before.turn_actions(session_id, extras0, n as int, now));
                Some(last)
            },
            None => {
                assert(messages::action_views(actions@) =~= messages::action_views(acts0)
                    + before.turn_actions(session_id, extras0, n as int, now));
                None
            },
        }
    }
}

} // verus!
