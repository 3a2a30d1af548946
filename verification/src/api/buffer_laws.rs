//! What holds of the stream buffers across calls.
use vstd::prelude::*;

use crate::api::types;
use crate::api::types::{Area, ReadableView, Score, WriteableView};
use crate::manager::packets::MAX_PAYLOAD_LENGTH;

verus! {

/// The piece of `source` that chunk `i` carries.
pub open spec fn piece(source: Seq<u8>, i: int) -> Seq<u8> {
    types::piece_at(source, i * MAX_PAYLOAD_LENGTH).payload
}

/// Whether every chunk that has arrived holds the bytes of `source`.
pub open spec fn holds_source(v: WriteableView, source: Seq<u8>) -> bool {
    &&& v.data.len() == source.len()
    &&& forall|i: int|
        0 <= i < v.filled.len() && #[trigger] v.filled[i] ==> piece(v.data, i) == piece(source, i)
}

/// A fresh buffer of the right length holds what has arrived of any source:
/// nothing.
pub proof fn fresh_buffer_holds_source(data: Seq<u8>, source: Seq<u8>)
    requires
        data.len() == source.len(),
    ensures
        holds_source(WriteableView::fresh(data), source),
{
}

/// Writing a piece of the source where it belongs keeps what has arrived equal to
/// the source.
pub proof fn write_keeps_source(v: WriteableView, source: Seq<u8>, i: int)
    requires
        v.wf(),
        holds_source(v, source),
        0 <= i < v.filled.len(),
        v.accepts(i * MAX_PAYLOAD_LENGTH, piece(source, i).len() as int),
    ensures
        holds_source(v.written(i * MAX_PAYLOAD_LENGTH, piece(source, i)), source),
{
    let at = i * MAX_PAYLOAD_LENGTH;
    let p = piece(source, i);
    let w = v.written(at, p);
    assert(at / MAX_PAYLOAD_LENGTH as int == i);
    assert forall|k: int| 0 <= k < w.filled.len() && #[trigger] w.filled[k] implies piece(w.data, k)
        == piece(source, k) by {
        if k == i {
            assert(piece(w.data, k) =~= piece(source, k));
        } else {
            assert(v.filled[k]);
            let kat = k * MAX_PAYLOAD_LENGTH;
            assert(kat + MAX_PAYLOAD_LENGTH <= at || at + MAX_PAYLOAD_LENGTH <= kat);
            assert(piece(w.data, k) =~= piece(v.data, k));
        }
    }
}

/// Moving the head does not touch what has arrived.
pub proof fn seek_keeps_source(v: WriteableView, source: Seq<u8>, position: int)
    requires
        holds_source(v, source),
    ensures
        holds_source(v.sought(position), source),
{
    assert(v.sought(position).filled == v.filled);
    assert(v.sought(position).data == v.data);
}

/// A buffer that is done holds the source, byte for byte.
pub proof fn done_buffer_is_source(v: WriteableView, source: Seq<u8>)
    requires
        v.wf(),
        v.done(),
        holds_source(v, source),
    ensures
        v.data == source,
{
    assert forall|b: int| 0 <= b < source.len() implies v.data[b] == source[b] by {
        let i = b / MAX_PAYLOAD_LENGTH as int;
        let at = i * MAX_PAYLOAD_LENGTH;
        assert(v.filled[i]);
        assert(piece(v.data, i)[b - at] == v.data[b]);
        assert(piece(source, i)[b - at] == source[b]);
    }
    assert(v.data =~= source);
}

/// Once every chunk of a buffer has arrived, moving the head makes it done.
pub proof fn all_chunks_make_done(v: WriteableView)
    requires
        v.wf(),
        forall|i: int| 0 <= i < v.filled.len() ==> v.filled[i],
    ensures
        v.advanced().done(),
{
    lemma_gap_full(v.filled, v.head / MAX_PAYLOAD_LENGTH as int);
}

/// A buffer after pieces of `source` came, in the given order, those that come a second time
/// being turned down.
pub open spec fn after_pieces(v: WriteableView, source: Seq<u8>, order: Seq<int>) -> WriteableView
    decreases order.len(),
{
    if order.len() == 0 {
        v
    } else {
        let before = after_pieces(v, source, order.drop_last());
        let at = order.last() * MAX_PAYLOAD_LENGTH;
        let bytes = piece(source, order.last());
        if before.accepts(at, bytes.len() as int) {
            before.written(at, bytes)
        } else {
            before
        }
    }
}

proof fn lemma_gap_end(filled: Seq<bool>, i: int)
    requires
        0 <= i < filled.len(),
    ensures
        i <= types::first_gap(filled, i) <= filled.len(),
        types::first_gap(filled, i) == filled.len() ==> filled.last(),
    decreases filled.len() - i,
{
    if filled[i] {
        if i + 1 < filled.len() {
            lemma_gap_end(filled, i + 1);
        } else {
            assert(types::first_gap(filled, i + 1) == i + 1);
        }
    }
}

/// A write keeps the invariant of a buffer.
pub proof fn write_keeps_wf(v: WriteableView, position: int, bytes: Seq<u8>)
    requires
        v.wf(),
        0 <= position,
        v.accepts(position, bytes.len() as int),
    ensures
        v.written(position, bytes).wf(),
{
    let filled = v.occupied(position).filled;
    let h = v.head / MAX_PAYLOAD_LENGTH as int;
    if h < filled.len() {
        lemma_gap_end(filled, h);
    }
}

proof fn lemma_after_pieces(v: WriteableView, source: Seq<u8>, order: Seq<int>)
    requires
        v.wf(),
        holds_source(v, source),
        (forall|i: int| 0 <= i < v.filled.len() ==> v.filled[i]) ==> v.done(),
        forall|k: int| 0 <= k < order.len() ==> 0 <= #[trigger] order[k] < v.filled.len(),
    ensures
        ({
            let w = after_pieces(v, source, order);
            &&& w.wf()
            &&& w.filled.len() == v.filled.len()
            &&& holds_source(w, source)
            &&& (forall|i: int| 0 <= i < w.filled.len() ==> w.filled[i]) ==> w.done()
            &&& forall|k: int| 0 <= k < order.len() ==> w.filled[#[trigger] order[k]]
        }),
    decreases order.len(),
{
    if order.len() > 0 {
        let rest = order.drop_last();
        let i = order.last();
        assert(order[order.len() - 1] == i);
        assert forall|k: int| 0 <= k < rest.len() implies 0 <= #[trigger] rest[k]
            < v.filled.len() by {
            assert(rest[k] == order[k]);
        }
        lemma_after_pieces(v, source, rest);
        let before = after_pieces(v, source, rest);
        let w = after_pieces(v, source, order);
        let at = i * MAX_PAYLOAD_LENGTH;
        let bytes = piece(source, i);
        assert(at / MAX_PAYLOAD_LENGTH as int == i);
        assert(at < source.len());
        if before.accepts(at, bytes.len() as int) {
            write_keeps_wf(before, at, bytes);
            write_keeps_source(before, source, i);
            if forall|j: int| 0 <= j < w.filled.len() ==> w.filled[j] {
                lemma_gap_full(w.filled, before.head / MAX_PAYLOAD_LENGTH as int);
            }
        } else {
            assert(before.filled[i]);
        }
        assert forall|k: int| 0 <= k < order.len() implies w.filled[#[trigger] order[k]] by {
            if k < rest.len() {
                assert(rest[k] == order[k]);
                assert(before.filled[rest[k]]);
            }
        }
    }
}

/// Once every piece of a source has been written into a buffer of its length, in whatever
/// order and however often, the buffer is done and holds the source, byte for byte.
pub proof fn all_pieces_make_done(data: Seq<u8>, source: Seq<u8>, order: Seq<int>)
    requires
        data.len() == source.len() <= u32::MAX,
        forall|k: int|
            0 <= k < order.len() ==> 0 <= #[trigger] order[k] < types::chunk_count(
                source.len() as int,
            ),
        forall|i: int|
            0 <= i < types::chunk_count(source.len() as int) ==> #[trigger] order.contains(i),
    ensures
        after_pieces(WriteableView::fresh(data), source, order).done(),
        after_pieces(WriteableView::fresh(data), source, order).data == source,
{
    let v = WriteableView::fresh(data);
    if source.len() > 0 {
        assert(!v.filled[0]);
    }
    lemma_after_pieces(v, source, order);
    let w = after_pieces(v, source, order);
    assert forall|i: int| 0 <= i < w.filled.len() implies w.filled[i] by {
        assert(order.contains(i));
        let k = choose|k: int| 0 <= k < order.len() && order[k] == i;
        assert(w.filled[order[k]]);
    }
    done_buffer_is_source(w, source);
}

proof fn lemma_gap_full(filled: Seq<bool>, i: int)
    requires
        0 <= i <= filled.len(),
        forall|k: int| 0 <= k < filled.len() ==> filled[k],
    ensures
        types::first_gap(filled, i) == filled.len(),
    decreases filled.len() - i,
{
    if i < filled.len() {
        lemma_gap_full(filled, i + 1);
    }
}

proof fn lemma_gap_from(filled: Seq<bool>, i: int)
    requires
        0 <= i <= filled.len(),
    ensures
        i <= types::first_gap(filled, i) <= filled.len(),
    decreases filled.len() - i,
{
    if i < filled.len() && filled[i] {
        lemma_gap_from(filled, i + 1);
    }
}

/// Neither a write nor a seek moves the head back.
pub proof fn head_never_retreats(v: WriteableView, position: int, bytes: Seq<u8>)
    requires
        v.wf(),
        0 <= position,
    ensures
        v.accepts(position, bytes.len() as int) ==> v.head <= v.written(position, bytes).head,
        v.head <= v.sought(position).head,
        v.head <= v.advanced().head,
{
    let h = v.head / MAX_PAYLOAD_LENGTH as int;
    lemma_gap_from(v.filled, h);
    if v.head % MAX_PAYLOAD_LENGTH as int != 0 {
        assert(types::first_gap(v.filled, h + 1) == h + 1);
        assert(types::first_gap(v.filled, h) == v.filled.len());
    }
    if v.accepts(position, bytes.len() as int) {
        let w = v.occupied(position);
        lemma_gap_from(w.filled, h);
        if v.head % MAX_PAYLOAD_LENGTH as int != 0 {
            assert(w.filled.last());
            assert(types::first_gap(w.filled, h + 1) == h + 1);
            assert(types::first_gap(w.filled, h) == w.filled.len());
        }
    }
    if position <= v.data.len() && position > v.head {
        lemma_gap_from(v.filled, position / MAX_PAYLOAD_LENGTH as int);
    }
}

/// The runs of missing chunks are determined by which chunks are missing.
pub proof fn holes_are_unique(a: Seq<Area>, b: Seq<Area>, filled: Seq<bool>)
    requires
        types::lists_holes(a, filled),
        types::lists_holes(b, filled),
    ensures
        a == b,
{
    assert forall|k: int| 0 <= k < a.len() implies k < b.len() && a[k] == b[k] by {
        lemma_same_prefix(a, b, filled, k);
    }
    if a.len() < b.len() {
        lemma_same_prefix(b, a, filled, b.len() - 1);
    }
    if b.len() < a.len() {
        lemma_same_prefix(a, b, filled, a.len() - 1);
    }
    assert(a =~= b);
}

/// The areas that a buffer tracks are the runs of its missing chunks.
pub proof fn areas_are_holes(b: types::WriteableBuffer)
    requires
        b.wf(),
    ensures
        b.areas() == types::holes_of(b@.filled),
        types::lists_holes(types::holes_of(b@.filled), b@.filled),
{
    b.lemma_wf();
    holes_are_unique(b.areas(), types::holes_of(b@.filled), b@.filled);
}

proof fn lemma_same_prefix(a: Seq<Area>, b: Seq<Area>, filled: Seq<bool>, k: int)
    requires
        types::lists_holes(a, filled),
        types::lists_holes(b, filled),
        0 <= k < a.len(),
    ensures
        k < b.len(),
        a[k] == b[k],
    decreases k,
{
    if k > 0 {
        lemma_same_prefix(a, b, filled, k - 1);
    }
    let s = a[k].start as int;
    assert(!filled[s]);
    let l = choose|l: int| 0 <= l < b.len() && (#[trigger] b[l]).start <= s < b[l].end;
    if l < k {
        if l < k - 1 {
            assert(b[l].end < b[k - 1].start);
            assert(b[k - 1].end == a[k - 1].end);
        }
        assert(a[k - 1].end < a[k].start);
        assert(false);
    }
    lemma_hole_index(a, b, filled, k, l);
    lemma_hole_start(a, b, filled, k);
    lemma_hole_end(a, b, filled, k);
    lemma_hole_end(b, a, filled, k);
}

proof fn lemma_hole_index(a: Seq<Area>, b: Seq<Area>, filled: Seq<bool>, k: int, l: int)
    requires
        types::lists_holes(a, filled),
        types::lists_holes(b, filled),
        0 <= k < a.len(),
        k <= l < b.len(),
        k > 0 ==> a[k - 1] == b[k - 1],
        b[l].start <= a[k].start < b[l].end,
    ensures
        l == k,
{
    if l > k {
        let t = b[k].start as int;
        assert(!filled[t]);
        assert(b[k].end < b[l].start);
        let m = choose|m: int| 0 <= m < a.len() && (#[trigger] a[m]).start <= t < a[m].end;
        if m < k {
            assert(b[k - 1].end < b[k].start);
            if m < k - 1 {
                assert(a[m].end < a[k - 1].start);
            }
        } else if m > k {
            assert(a[k].end < a[m].start);
        }
    }
}

proof fn lemma_hole_start(a: Seq<Area>, b: Seq<Area>, filled: Seq<bool>, k: int)
    requires
        types::lists_holes(a, filled),
        types::lists_holes(b, filled),
        0 <= k < a.len(),
        k < b.len(),
        k > 0 ==> a[k - 1] == b[k - 1],
        b[k].start <= a[k].start < b[k].end,
    ensures
        a[k].start == b[k].start,
{
    if b[k].start < a[k].start {
        let t = b[k].start as int;
        assert(!filled[t]);
        let m = choose|m: int| 0 <= m < a.len() && (#[trigger] a[m]).start <= t < a[m].end;
        if m < k {
            assert(b[k - 1].end < b[k].start);
            if m < k - 1 {
                assert(a[m].end < a[k - 1].start);
            }
        } else if m > k {
            assert(a[k].end < a[m].start);
        }
    }
}

proof fn lemma_hole_end(a: Seq<Area>, b: Seq<Area>, filled: Seq<bool>, k: int)
    requires
        types::lists_holes(a, filled),
        types::lists_holes(b, filled),
        0 <= k < a.len(),
        k < b.len(),
        a[k].start == b[k].start,
    ensures
        a[k].end >= b[k].end,
{
    if a[k].end < b[k].end {
        let t = a[k].end as int;
        assert(b[k].start <= t < b[k].end);
        assert(!filled[t]);
        let m = choose|m: int| 0 <= m < a.len() && (#[trigger] a[m]).start <= t < a[m].end;
        if m < k {
            assert(a[m].end < a[k].start);
        } else if m > k {
            assert(a[k].end < a[m].start);
        }
    }
}

/// What is asked for: at most two holes, each among those scored and each reaching
/// the threshold; the first scores at least as high as the second.
pub proof fn top_areas_reach_threshold(scored: Seq<(Area, Score)>)
    ensures
        types::top_areas(scored).len() <= types::MAX_REQUESTS_PER_TICK,
        forall|k: int|
            0 <= k < types::top_areas(scored).len() ==> exists|i: int|
                0 <= i < scored.len() && (#[trigger] scored[i]).0 == (#[trigger] types::top_areas(
                    scored,
                )[k]) && types::reaches_threshold(scored[i].1),
{
    lemma_best(scored, scored.len() as int, -1);
    match types::best_area(scored, scored.len() as int, -1) {
        None => {},
        Some(a) => {
            lemma_best(scored, scored.len() as int, a);
            assert(scored[a].0 == types::top_areas(scored)[0]);
        },
    }
}

/// No hole that reaches the threshold scores higher than the first one asked for,
/// and if none is asked for, none reaches the threshold.
pub proof fn top_area_is_best(scored: Seq<(Area, Score)>, i: int)
    requires
        0 <= i < scored.len(),
        types::reaches_threshold(scored[i].1),
        forall|k: int| 0 <= k < scored.len() ==> (#[trigger] scored[k]).1.den > 0,
    ensures
        types::best_area(scored, scored.len() as int, -1) matches Some(a) && 0 <= a < scored.len()
            && types::top_areas(scored)[0] == scored[a].0 && scored[a].1.ge(scored[i].1),
{
    lemma_best(scored, scored.len() as int, -1);
    lemma_best_beats(scored, scored.len() as int, -1, i);
}

/// A hole that reaches the threshold and is not the first one asked for leaves
/// room for no better second.
pub proof fn second_area_is_next_best(scored: Seq<(Area, Score)>, a: int, i: int)
    requires
        0 <= i < scored.len(),
        types::reaches_threshold(scored[i].1),
        types::best_area(scored, scored.len() as int, -1) == Some(a),
        i != a,
        forall|k: int| 0 <= k < scored.len() ==> (#[trigger] scored[k]).1.den > 0,
    ensures
        types::best_area(scored, scored.len() as int, a) matches Some(b) && 0 <= b < scored.len() && b
            != a && types::top_areas(scored) == seq![scored[a].0, scored[b].0]
            && scored[b].1.ge(scored[i].1) && scored[a].1.ge(scored[b].1),
{
    lemma_best(scored, scored.len() as int, -1);
    lemma_best(scored, scored.len() as int, a);
    lemma_best_beats(scored, scored.len() as int, a, i);
    let b = types::best_area(scored, scored.len() as int, a)->0;
    lemma_best_beats(scored, scored.len() as int, -1, b);
}

/// Of holes that are equally worth asking for the one that comes first in the stream is asked
/// for first: what is picked over a hole before it is worth strictly more.
pub proof fn equals_are_asked_for_in_order(scored: Seq<(Area, Score)>, a: int, b: int, i: int)
    requires
        0 <= i < scored.len(),
        types::reaches_threshold(scored[i].1),
        types::best_area(scored, scored.len() as int, -1) == Some(a),
        forall|k: int| 0 <= k < scored.len() ==> (#[trigger] scored[k]).1.den > 0,
    ensures
        types::top_areas(scored)[0] == scored[a].0,
        i < a ==> scored[a].1.gt(scored[i].1),
        types::best_area(scored, scored.len() as int, a) == Some(b) ==> types::top_areas(scored)[1]
            == scored[b].0 && (i < b && i != a ==> scored[b].1.gt(scored[i].1)),
{
    let n = scored.len() as int;
    lemma_best(scored, n, -1);
    if i < a {
        lemma_best_beats_earlier(scored, n, -1, i);
    }
    if types::best_area(scored, n, a) == Some(b) {
        lemma_best(scored, n, a);
        if i < b && i != a {
            lemma_best_beats_earlier(scored, n, a, i);
        }
    }
}

proof fn lemma_best_beats_earlier(scored: Seq<(Area, Score)>, n: int, skip: int, i: int)
    requires
        0 <= i < n <= scored.len(),
        i != skip,
        types::reaches_threshold(scored[i].1),
        forall|k: int| 0 <= k < scored.len() ==> (#[trigger] scored[k]).1.den > 0,
    ensures
        types::best_area(scored, n, skip) matches Some(b) ==> i < b ==> scored[b].1.gt(scored[i].1),
    decreases n,
{
    lemma_best(scored, n, skip);
    if i < n - 1 {
        lemma_best_beats_earlier(scored, n - 1, skip, i);
        lemma_best_beats(scored, n - 1, skip, i);
        lemma_best(scored, n - 1, skip);
        let before = types::best_area(scored, n - 1, skip)->0;
        let last = scored[n - 1].1;
        if types::best_area(scored, n, skip) == Some(n - 1) {
            lemma_gt_trans(last, scored[before].1, scored[i].1);
        }
    }
}

proof fn lemma_gt_trans(x: Score, y: Score, z: Score)
    requires
        x.gt(y),
        y.ge(z),
        x.den > 0,
        y.den > 0,
        z.den > 0,
    ensures
        x.gt(z),
{
    let (xn, xd, yn, yd, zn, zd) = (
        x.num as int,
        x.den as int,
        y.num as int,
        y.den as int,
        z.num as int,
        z.den as int,
    );
    assert(xn * zd > zn * xd) by (nonlinear_arith)
        requires
            xn * yd > yn * xd,
            yn * zd >= zn * yd,
            xd > 0,
            yd > 0,
            zd > 0,
    {
        assert((xn * yd) * zd > (yn * xd) * zd);
        assert((yn * zd) * xd >= (zn * yd) * xd);
        assert((xn * zd) * yd > (zn * xd) * yd);
    }
}

proof fn lemma_best(scored: Seq<(Area, Score)>, n: int, skip: int)
    requires
        n <= scored.len(),
    ensures
        types::best_area(scored, n, skip) matches Some(b) ==> 0 <= b < n && b != skip
            && types::reaches_threshold(scored[b].1),
    decreases n,
{
    if n > 0 {
        lemma_best(scored, n - 1, skip);
    }
}

proof fn lemma_best_beats(scored: Seq<(Area, Score)>, n: int, skip: int, i: int)
    requires
        0 <= i < n <= scored.len(),
        i != skip,
        types::reaches_threshold(scored[i].1),
        forall|k: int| 0 <= k < scored.len() ==> (#[trigger] scored[k]).1.den > 0,
    ensures
        types::best_area(scored, n, skip) matches Some(b) && scored[b].1.ge(scored[i].1),
    decreases n,
{
    lemma_best(scored, n, skip);
    lemma_best(scored, n - 1, skip);
    let b = types::best_area(scored, n, skip);
    if i < n - 1 {
        lemma_best_beats(scored, n - 1, skip, i);
        let before = types::best_area(scored, n - 1, skip)->0;
        if b == Some(n - 1) && before != n - 1 {
            lemma_ge_trans(scored[n - 1].1, scored[before].1, scored[i].1);
        }
    }
}

proof fn lemma_ge_trans(x: Score, y: Score, z: Score)
    requires
        x.ge(y),
        y.ge(z),
        x.den > 0,
        y.den > 0,
        z.den > 0,
    ensures
        x.ge(z),
{
    let (xn, xd, yn, yd, zn, zd) = (
        x.num as int,
        x.den as int,
        y.num as int,
        y.den as int,
        z.num as int,
        z.den as int,
    );
    assert(xn * zd >= zn * xd) by (nonlinear_arith)
        requires
            xn * yd >= yn * xd,
            yn * zd >= zn * yd,
            xd > 0,
            yd > 0,
            zd > 0,
            xn >= 0,
            yn >= 0,
            zn >= 0,
    {
        assert((xn * yd) * zd >= (yn * xd) * zd);
        assert((yn * zd) * xd >= (zn * yd) * xd);
        assert((xn * zd) * yd >= (zn * xd) * yd);
    }
}

/// The urgency of a hole at the head is one, falls with every chunk of distance
/// past the head, and stays below one for holes before it.
pub proof fn urgency_ranks_holes(near: Area, far: Area, before: Area, head_chunk: int)
    requires
        head_chunk <= near.start < far.start,
        before.start < before.end,
        before.start < head_chunk,
    ensures
        near.start == head_chunk ==> near.urgency_spec(head_chunk) == (4int, 4int),
        ({
            let n = near.urgency_spec(head_chunk);
            let f = far.urgency_spec(head_chunk);
            f.0 * n.1 < n.0 * f.1
        }),
        ({
            let b = before.urgency_spec(head_chunk);
            0 < b.0 < b.1 && b.0 * 10 <= b.1 * 9
        }),
{
    let n = near.urgency_spec(head_chunk);
    let f = far.urgency_spec(head_chunk);
    assert(f.0 * n.1 < n.0 * f.1) by (nonlinear_arith)
        requires
            f.0 == 4,
            n.0 == 4,
            n.1 < f.1,
    ;
}

/// The more chunks have arrived past a hole, the surer the loss; never quite sure.
pub proof fn confidence_grows(area: Area, total: int, fewer: int, more: int)
    requires
        0 <= fewer < more <= total - area.end,
    ensures
        ({
            let hi = area.confidence_spec(total, fewer);
            let lo = area.confidence_spec(total, more);
            &&& 0 <= lo.0
            &&& 0 < lo.1
            &&& 0 < hi.1
            &&& lo.0 * hi.1 < hi.0 * lo.1
            &&& hi.0 < hi.1
        }),
{
    let hi = area.confidence_spec(total, fewer);
    let lo = area.confidence_spec(total, more);
    assert(lo.0 * hi.1 < hi.0 * lo.1) by (nonlinear_arith)
        requires
            hi.1 == hi.0 + 4,
            lo.1 == lo.0 + 4,
            0 <= lo.0 < hi.0,
    ;
}

/// The pieces of a buffer, put together.
pub open spec fn joined(data: Seq<u8>, n: int) -> Seq<u8>
    decreases n,
{
    if n <= 0 {
        seq![]
    } else {
        joined(data, n - 1) + piece(data, n - 1)
    }
}

/// The pieces that a buffer is sent in, put together, are the buffer.
pub proof fn pieces_join_to_data(data: Seq<u8>)
    ensures
        joined(data, types::pieces_in(data.len() as int)) == data,
{
    let n = types::pieces_in(data.len() as int);
    lemma_joined(data, n);
    assert(joined(data, n) =~= data);
}

proof fn lemma_joined(data: Seq<u8>, n: int)
    requires
        0 <= n <= types::pieces_in(data.len() as int),
    ensures
        joined(data, n) == data.subrange(
            0,
            if n * MAX_PAYLOAD_LENGTH <= data.len() {
                n * MAX_PAYLOAD_LENGTH
            } else {
                data.len() as int
            },
        ),
    decreases n,
{
    if n > 0 {
        lemma_joined(data, n - 1);
        assert((n - 1) * MAX_PAYLOAD_LENGTH < data.len());
    }
    assert(joined(data, n) =~= data.subrange(
        0,
        if n * MAX_PAYLOAD_LENGTH <= data.len() {
            n * MAX_PAYLOAD_LENGTH
        } else {
            data.len() as int
        },
    ));
}

/// Taking pieces until the end has been reached takes all of them, each once and
/// in order.
pub proof fn taking_all_pieces_finishes(v: ReadableView, n: int)
    requires
        v.wf(),
        v.head == 0,
        n >= types::pieces_in(v.data.len() as int),
    ensures
        v.taken(n).done(),
        v.pieces(n).len() == types::pieces_in(v.data.len() as int),
        forall|i: int|
            0 <= i < v.pieces(n).len() ==> (#[trigger] v.pieces(n)[i]).payload == piece(v.data, i)
                && v.pieces(n)[i].position == i * MAX_PAYLOAD_LENGTH,
{
}

/// The run of missing chunks before a chunk begins after the last one that has arrived.
pub proof fn runs_begin_after_what_arrived(filled: Seq<bool>, i: int)
    requires
        0 <= i <= filled.len(),
    ensures
        0 <= types::run_start(filled, i) <= i,
        types::run_start(filled, i) > 0 ==> filled[types::run_start(filled, i) - 1],
        forall|c: int| types::run_start(filled, i) <= c < i ==> !#[trigger] filled[c],
    decreases i,
{
    if i > 0 && !filled[i - 1] {
        runs_begin_after_what_arrived(filled, i - 1);
    }
}

/// The chunks of a stream cover it: each byte is in one, and each has a byte. A sender that has
/// everything left has as many pieces left.
pub proof fn chunks_cover_the_stream(len: int, c: int)
    requires
        0 <= len,
    ensures
        0 <= c < types::chunk_count(len) <==> 0 <= c * 1384 < len,
        types::pieces_in(len) == types::chunk_count(len),
{
}

} // verus!
