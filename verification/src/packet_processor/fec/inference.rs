//! How many packets a batch has.
use vstd::prelude::*;

verus! {

/// Most packets that a batch has.
pub const MAGIC_BATCH_SIZE: usize = 28;

/// The sizes of a batch.
#[derive(Debug, Clone, Copy, PartialEq, Eq, Structural)]
pub struct BatchInfo {
    /// Number of data packets.
    pub batch_size: u8,
    /// Number of recovery packets.
    pub recovery_count: u8,
}

/// The sizes of the next batch of a stream that has `packets_left` packets left.
pub fn create_batch(packets_left: usize) -> (b: BatchInfo)
    ensures
        b.recovery_count == 1,
        b.batch_size == (if packets_left < MAGIC_BATCH_SIZE {
            packets_left
        } else {
            MAGIC_BATCH_SIZE
        }),
{
    let batch_size: u8 = if packets_left < MAGIC_BATCH_SIZE {
        packets_left as u8
    } else {
        MAGIC_BATCH_SIZE as u8
    };
    BatchInfo { batch_size, recovery_count: 1 }
}

} // verus!
