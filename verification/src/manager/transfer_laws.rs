//! What holds of a stream from one end to the other: what is sent of it, and what the
//! receiver makes of that.
use vstd::prelude::*;

use crate::api::buffer_laws;
use crate::api::types;
use crate::api::types::{ReadableView, WriteableView};
use crate::manager::batches;
use crate::manager::fields::{BatchID, SessionId};
use crate::manager::identity::Address;
use crate::manager::ranges::{ByteRange, FecConfig};
use crate::manager::session_fec::FecBatchWindow;
use crate::manager::stream_state;
use crate::manager::stream_state::{Outcome, RecoveredView, RecoveryStep, StreamView};
use crate::manager::streaming::FromView;
use crate::manager::types::Timestamp;
use crate::manager::views;
use crate::packet_processor::fec::data;
use crate::packet_processor::fec::data::RecoverdPacket;
use crate::packet_processor::fec::reed_solomon;
use crate::utils::messages::{ActionView, StreamMessage};

verus! {

/// Whether bytes at a position are the chunk of `source` that begins there.
pub open spec fn is_chunk_of(at: int, payload: Seq<u8>, source: Seq<u8>) -> bool {
    &&& 0 <= at <= source.len()
    &&& at % 1384 == 0
    &&& payload == buffer_laws::piece(source, at / 1384)
}

/// Whether a packet carries a chunk of `source`.
pub open spec fn carries(packet: views::PacketView, source: Seq<u8>) -> bool {
    packet matches views::PacketView::Data(data) && is_chunk_of(
        data.byte_range_start.0 as int,
        data.payload,
        source,
    )
}

/// Whether a sending buffer stands at the beginning of a chunk or at the end.
pub open spec fn stands_at_chunk(buffer: ReadableView) -> bool {
    buffer.head % 1384 == 0 || buffer.head == buffer.data.len()
}

proof fn lemma_range_chunks(data: Seq<u8>, ranges: Seq<ByteRange>, i: int)
    requires
        forall|k: int|
            0 <= k < ranges.len() ==> (#[trigger] ranges[k]).start.0 % 1384 == 0
                && ranges[k].length == 1384,
        0 <= i < stream_state::range_pieces(data, ranges).len(),
    ensures
        ({
            let chunk = stream_state::range_pieces(data, ranges)[i];
            is_chunk_of(chunk.position, chunk.payload, data) && chunk.position <= u32::MAX
        }),
    decreases ranges.len(),
{
    let rest = stream_state::range_pieces(data, ranges.drop_last());
    let last = ranges.last();
    if i < rest.len() {
        lemma_range_chunks(data, ranges.drop_last(), i);
    } else {
        assert(ranges[ranges.len() - 1] == last);
        assert(last.start.0 as int / 1384 * 1384 == last.start.0);
    }
}

/// Every packet of a batch carries a chunk of the stream, whether its turn has come or it
/// is sent again, and the sender stands at a chunk again after that.
pub proof fn batches_carry_the_source(
    stream: StreamView,
    extras: Seq<usize>,
    n: int,
    session: SessionId,
    batch_id: BatchID,
    config: FecConfig,
    now: Timestamp,
    i: int,
)
    requires
        stream.streaming is To,
        stream.source().wf(),
        stands_at_chunk(stream.source()),
        batches::chunk_numbers(extras),
        0 <= n,
    ensures
        ({
            let chunks = batches::batch_chunks(stream, extras, n);
            0 <= i < chunks.len() ==> carries(
                batches::data_view(chunks, i, session, batch_id, config, now),
                stream.source().data,
            )
        }),
        ({
            let next = batches::after_batch(stream, extras, n).source();
            next.data == stream.source().data && stands_at_chunk(next)
        }),
{
    let source = stream.source();
    let chunks = batches::batch_chunks(stream, extras, n);
    if 0 <= i < chunks.len() {
        if batches::turns_to_extras(stream, extras, n) {
            let ranges = batches::chunk_ranges(
                extras.take(batches::least(n, extras.len() as int)),
            );
            assert forall|k: int| 0 <= k < ranges.len() implies (#[trigger] ranges[k]).start.0
                % 1384 == 0 && ranges[k].length == 1384 by {
                assert(extras[k] <= 3103300);
            }
            lemma_range_chunks(source.data, ranges, i);
        } else {
            let at = source.head + i * 1384;
            assert(chunks[i] == types::piece_at(source.data, at));
            assert(at / 1384 * 1384 == at);
        }
    }
}

/// Moving a sending buffer leaves its bytes as they are, and it stands at a chunk again.
pub proof fn seeking_stands_at_chunk(buffer: ReadableView, position: int)
    requires
        buffer.wf(),
        0 <= position,
    ensures
        buffer.sought(position).data == buffer.data,
        stands_at_chunk(buffer.sought(position)),
{
}

proof fn lemma_written(buffer: WriteableView, at: int, payload: Seq<u8>, source: Seq<u8>)
    requires
        buffer.wf(),
        buffer_laws::holds_source(buffer, source),
        is_chunk_of(at, payload, source),
        buffer.accepts(at, payload.len() as int),
    ensures
        buffer.written(at, payload).wf(),
        buffer_laws::holds_source(buffer.written(at, payload), source),
{
    assert(at / 1384 * 1384 == at);
    buffer_laws::write_keeps_source(buffer, source, at / 1384);
    buffer_laws::write_keeps_wf(buffer, at, payload);
}

/// Whatever has arrived of a stream is what was sent of it, if all that comes is: a data
/// packet keeps that, and the stream is the source, byte for byte, once it is done without
/// the application taking holes.
pub proof fn data_keeps_source(
    from: FromView,
    message: StreamMessage,
    fec: Map<u64, FecBatchWindow>,
    packet: views::DataView,
    address: Address,
    now: Timestamp,
    source: Seq<u8>,
)
    requires
        from.buffer.wf(),
        buffer_laws::holds_source(from.buffer, source),
        carries(views::PacketView::Data(packet), source),
    ensures
        ({
            let step = stream_state::data_step(from, message, fec, packet, address, now);
            let buffer = step.stream.streaming->From_0.buffer;
            &&& step.stream.streaming is From
            &&& buffer.wf()
            &&& buffer_laws::holds_source(buffer, source)
            &&& step.outcome == Outcome::Done && message.complete != Some(true) ==> buffer.data
                == source
        }),
{
    let at = packet.byte_range_start.0 as int;
    let step = stream_state::data_step(from, message, fec, packet, address, now);
    let buffer = step.stream.streaming->From_0.buffer;
    if from.buffer.accepts(at, packet.payload.len() as int) {
        lemma_written(from.buffer, at, packet.payload, source);
        assert(buffer == from.buffer.written(at, packet.payload));
        if buffer.done() {
            buffer_laws::done_buffer_is_source(buffer, source);
        }
    }
}

/// A packet that was recovered from the block of a chunk is that chunk, so that what a batch
/// lost is made up for exactly.
pub proof fn recovered_is_chunk(
    packet: RecoverdPacket,
    at: u32,
    payload: Seq<u8>,
    source: Seq<u8>,
)
    requires
        is_chunk_of(at as int, payload, source),
        reed_solomon::is_restored(packet, data::fec_image(at, payload)),
    ensures
        is_chunk_of(packet.byte_range_start.0 as int, packet.payload@, source),
{
    data::block_holds_packet(at, payload);
}

proof fn lemma_recovered(
    begin: RecoveryStep,
    packets: Seq<RecoveredView>,
    now: Timestamp,
    source: Seq<u8>,
)
    requires
        begin.from.buffer.wf(),
        buffer_laws::holds_source(begin.from.buffer, source),
        forall|k: int|
            0 <= k < packets.len() ==> is_chunk_of(
                (#[trigger] packets[k]).at.0 as int,
                packets[k].payload,
                source,
            ),
    ensures
        begin.steps(packets, now).from.buffer.wf(),
        buffer_laws::holds_source(begin.steps(packets, now).from.buffer, source),
        begin.steps(packets, now).message.complete == begin.message.complete,
        begin.steps(packets, now).from.session_id == begin.from.session_id,
    decreases packets.len(),
{
    if packets.len() > 0 {
        lemma_recovered(begin, packets.drop_last(), now, source);
        let before = begin.steps(packets.drop_last(), now);
        let last = packets.last();
        assert(packets[packets.len() - 1] == last);
        if before.fits && before.from.buffer.accepts(last.at.0 as int, last.payload.len() as int) {
            lemma_written(before.from.buffer, last.at.0 as int, last.payload, source);
        }
    }
}

/// Recovered packets keep what has arrived of a stream equal to what was sent, if they are
/// the packets that were lost; the application is handed the source, byte for byte, once
/// they make the stream done without its taking holes.
pub proof fn recovery_keeps_source(
    from: FromView,
    message: StreamMessage,
    fec: Map<u64, FecBatchWindow>,
    batch_id: BatchID,
    packets: Seq<RecoveredView>,
    session: SessionId,
    address: Address,
    now: Timestamp,
    source: Seq<u8>,
)
    requires
        from.buffer.wf(),
        buffer_laws::holds_source(from.buffer, source),
        forall|k: int|
            0 <= k < packets.len() ==> is_chunk_of(
                (#[trigger] packets[k]).at.0 as int,
                packets[k].payload,
                source,
            ),
    ensures
        ({
            let step = stream_state::recovered_step(
                from,
                message,
                fec,
                batch_id,
                packets,
                session,
                address,
                now,
            );
            let buffer = step.stream.streaming->From_0.buffer;
            &&& step.stream.streaming is From
            &&& buffer.wf()
            &&& buffer_laws::holds_source(buffer, source)
            &&& step.outcome == Outcome::Done && message.complete != Some(true) ==> buffer.data
                == source && step.actions.contains(
                ActionView::Received { session: from.session_id, data: source },
            )
        }),
{
    let message1 = StreamMessage { approved: Some(true), ..message };
    let begin = RecoveryStep {
        from,
        message: message1,
        actions: stream_state::recovery_observed(
            session,
            fec,
            batch_id,
            packets.len() as int,
            now,
        ) + seq![ActionView::Publish { session: from.session_id, message: message1 }],
        fits: true,
    };
    let all = begin.steps(packets, now);
    lemma_recovered(begin, packets, now, source);
    let step = stream_state::recovered_step(
        from,
        message,
        fec,
        batch_id,
        packets,
        session,
        address,
        now,
    );
    if step.outcome == Outcome::Done {
        assert(step.actions[all.actions.len() as int + 1] == (ActionView::Received {
            session: from.session_id,
            data: all.from.buffer.data,
        }));
        if all.from.buffer.done() {
            buffer_laws::done_buffer_is_source(all.from.buffer, source);
        }
    }
}

} // verus!
