//! Which packets of a batch came, and where the missing ones would stand.
use vstd::prelude::*;

use crate::manager::fields::{BatchID, BytePosition, SessionId};

verus! {

/// Number of places that a batch can have.
pub const PLACES: usize = 256;

/// Which places of a batch were filled, the position of its first place, and whether
/// every packet stood where that position says.
#[verifier::ext_equal]
pub struct PositionsView {
    pub mask: Seq<bool>,
    pub base: Option<BytePosition>,
    pub contiguous: bool,
}

/// Number of bytes from the first place to place `i`: every packet before it is full.
pub open spec fn offset(i: int) -> int {
    i * 1384
}

/// The position of the first place, given that of place `pos`.
pub open spec fn derived_base(pos: u8, start: BytePosition) -> BytePosition {
    if start.0 < offset(pos as int) {
        BytePosition(0)
    } else {
        BytePosition((start.0 - offset(pos as int)) as u32)
    }
}

/// The positions of the places below `n` that `mask` does not hold, from `base` on.
/// Places beyond the last position are left out.
pub open spec fn unmasked(mask: Seq<bool>, base: int, n: int) -> Seq<BytePosition>
    decreases n,
{
    if n <= 0 {
        seq![]
    } else {
        let rest = unmasked(mask, base, n - 1);
        let at = base + offset(n - 1);
        if !mask[n - 1] && at <= u32::MAX {
            rest.push(BytePosition(at as u32))
        } else {
            rest
        }
    }
}

impl PositionsView {
    /// Nothing came.
    pub open spec fn empty() -> PositionsView {
        PositionsView {
            mask: Seq::new(PLACES as nat, |i: int| false),
            base: None,
            contiguous: true,
        }
    }

    /// The packet at `pos`, which starts at `start`, came.
    pub open spec fn noted(self, pos: u8, start: BytePosition) -> PositionsView {
        let derived = derived_base(pos, start);
        PositionsView {
            mask: self.mask.update(pos as int, true),
            base: match self.base {
                None => Some(derived),
                Some(b) => Some(b),
            },
            contiguous: self.contiguous && (self.base matches Some(b) ==> b == derived),
        }
    }

    /// The positions that a batch of `size` packets misses. None are known of a batch
    /// that has none of its packets, or whose packets do not follow each other.
    pub open spec fn missing(self, size: u8) -> Seq<BytePosition> {
        match self.base {
            Some(base) if self.contiguous => unmasked(self.mask, base.0 as int, size as int),
            _ => seq![],
        }
    }
}

/// Which packets of a batch came.
#[derive(Debug)]
pub struct Positions {
    mask: Vec<bool>,
    base: Option<BytePosition>,
    contiguous: bool,
}

impl View for Positions {
    type V = PositionsView;

    closed spec fn view(&self) -> PositionsView {
        PositionsView { mask: self.mask@, base: self.base, contiguous: self.contiguous }
    }
}

impl Positions {
    /// Whether every place is counted.
    pub open spec fn wf(self) -> bool {
        self@.mask.len() == PLACES
    }

    /// Nothing came.
    pub fn new() -> (p: Self)
        ensures
            p.wf(),
            p@ == PositionsView::empty(),
    {
        let mut mask: Vec<bool> = Vec::new();
        while mask.len() < PLACES
            invariant
                mask@.len() <= PLACES,
                mask@ =~= Seq::new(mask@.len(), |i: int| false),
            decreases PLACES - mask@.len(),
        {
            mask.push(false);
        }
        Positions { mask, base: None, contiguous: true }
    }

    /// Whether the packet at `pos` came.
    pub fn has(&self, pos: u8) -> (r: bool)
        requires
            self.wf(),
        ensures
            r == self@.mask[pos as int],
    {
        self.mask[pos as usize]
    }

    /// Notes that the packet at `pos`, which starts at `start`, came.
    pub fn note(&mut self, pos: u8, start: BytePosition)
        requires
            old(self).wf(),
        ensures
            final(self).wf(),
            final(self)@ == old(self)@.noted(pos, start),
    {
        let before: u32 = pos as u32 * 1384;
        let derived: BytePosition = BytePosition(start.0.saturating_sub(before));
        match self.base {
            None => {
                self.base = Some(derived);
            },
            Some(base) => {
                if base.0 != derived.0 {
                    self.contiguous = false;
                }
            },
        }
        self.mask.set(pos as usize, true);
    }

    /// The positions that a batch of `size` packets misses.
    pub fn missing(&self, size: u8) -> (positions: Vec<BytePosition>)
        requires
            self.wf(),
        ensures
            positions@ == self@.missing(size),
    {
        let mut positions: Vec<BytePosition> = Vec::new();
        match self.base {
            Some(base) if self.contiguous => {
                let mut i: u8 = 0;
                while i < size
                    invariant
                        i <= size,
                        self.wf(),
                        positions@ == unmasked(self@.mask, base.0 as int, i as int),
                    decreases size - i,
                {
                    let at: u64 = base.0 as u64 + i as u64 * 1384;
                    if !self.mask[i as usize] && at <= u32::MAX as u64 {
                        positions.push(BytePosition(at as u32));
                    }
                    i += 1;
                }
            },
            _ => {},
        }
        positions
    }
}

/// A batch knows what it misses: the packets that came stood at their places from
/// `base` on, so the missing ones are those of the other places.
pub proof fn missing_are_the_other_places(mask: Seq<bool>, base: int, n: int, i: int)
    requires
        0 <= i < n <= mask.len(),
        0 <= base,
        base + offset(i) <= u32::MAX,
    ensures
        unmasked(mask, base, n).contains(BytePosition((base + offset(i)) as u32))
            <==> !mask[i],
    decreases n,
{
    let p = BytePosition((base + offset(i)) as u32);
    let rest = unmasked(mask, base, n - 1);
    let at = base + offset(n - 1);
    lemma_unmasked_below(mask, base, n - 1);
    if i == n - 1 {
        if !mask[i] {
            assert(unmasked(mask, base, n).last() == p);
        }
    } else {
        missing_are_the_other_places(mask, base, n - 1, i);
        if !mask[n - 1] && at <= u32::MAX {
            let all = rest.push(BytePosition(at as u32));
            assert(all.contains(p) <==> rest.contains(p)) by {
                if rest.contains(p) {
                    let k = choose|k: int| 0 <= k < rest.len() && rest[k] == p;
                    assert(all[k] == p);
                }
                if all.contains(p) {
                    let k = choose|k: int| 0 <= k < all.len() && all[k] == p;
                    assert(k < rest.len());
                    assert(rest[k] == p);
                }
            }
        }
    }
}

proof fn lemma_unmasked_below(mask: Seq<bool>, base: int, n: int)
    requires
        0 <= base,
        0 <= n <= mask.len(),
    ensures
        forall|k: int|
            0 <= k < unmasked(mask, base, n).len() ==> (#[trigger] unmasked(mask, base, n)[k]).0
                < base + offset(n),
    decreases n,
{
    if n > 0 {
        lemma_unmasked_below(mask, base, n - 1);
        let rest = unmasked(mask, base, n - 1);
        let all = unmasked(mask, base, n);
        assert forall|k: int| 0 <= k < all.len() implies (#[trigger] all[k]).0 < base + offset(
            n,
        ) by {
            if k < rest.len() {
                assert(all[k] == rest[k]);
            }
        }
    }
}

/// The key of a batch of a session.
pub open spec fn batch_key(batch_id: BatchID, session_id: SessionId) -> u128 {
    (session_id.0 * 0x1_0000 + batch_id.0) as u128
}

/// The session that a key is of.
pub open spec fn key_session(key: u128) -> SessionId {
    SessionId((key / 0x1_0000) as u64)
}

/// The batch that a key is of.
pub open spec fn key_batch(key: u128) -> BatchID {
    BatchID((key % 0x1_0000) as u16)
}

/// Whether the number is the key of a batch.
pub open spec fn is_batch_key(key: u128) -> bool {
    key < 0x1_0000_0000_0000_0000_0000
}

/// Batches have keys of their own, from which they are known.
pub proof fn batch_keys_are_unique(batch_id: BatchID, session_id: SessionId)
    ensures
        is_batch_key(batch_key(batch_id, session_id)),
        key_session(batch_key(batch_id, session_id)) == session_id,
        key_batch(batch_key(batch_id, session_id)) == batch_id,
{
}

/// The key of a batch of a session.
pub fn key_of(batch_id: BatchID, session_id: SessionId) -> (key: u128)
    ensures
        key == batch_key(batch_id, session_id),
        is_batch_key(key),
{
    session_id.0 as u128 * 0x1_0000 + batch_id.0 as u128
}

/// The session and the batch that a key is of.
pub fn ids_of(key: u128) -> (ids: (SessionId, BatchID))
    requires
        is_batch_key(key),
    ensures
        ids.0 == key_session(key),
        ids.1 == key_batch(key),
        batch_key(ids.1, ids.0) == key,
{
    (SessionId((key / 0x1_0000) as u64), BatchID((key % 0x1_0000) as u16))
}

} // verus!
