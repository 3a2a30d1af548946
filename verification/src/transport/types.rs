//! The pool of sockets that packets leave by. It grows where batches fill up early and
//! shrinks where they do not fill up in time.
use vstd::prelude::*;

use crate::packet_processor::encryption::{COUNTER_SIZE, TAG_SIZE};

verus! {

/// Largest packet, in bytes, before it is protected.
pub const MAX_PACKET_SIZE: usize = 1500 - 60 - 8;

/// Room for the largest packet and its protection.
pub const MAX_DATAGRAM_SIZE: usize = MAX_PACKET_SIZE + TAG_SIZE + COUNTER_SIZE;

/// Number of packets in a full batch.
pub const MAX_PACKET_BUFFER_SIZE: usize = 128;

/// How long packets are gathered for a batch, in milliseconds.
pub const BUFFER_TIMEOUT: u64 = 5;

/// Number of batches in a row that have to leave on time before a socket is given up.
pub const BUFFERS_BEFORE_REMOVE: u64 = 100;

/// Number of batches in a row that have to be full at once before a socket is added.
pub const BUFFERS_BEFORE_ADD: u64 = 50;

/// Level of the removal meter at which a socket is given up: the sum of the squares from 1
/// to [`BUFFERS_BEFORE_REMOVE`].
pub const REMOVAL_THRESHOLD: u64 = 338350;

/// Level of the addition meter at which a socket is added: what [`BUFFERS_BEFORE_ADD`]
/// batches in a row that are full at once bring it to.
pub const ADDITION_THRESHOLD: u64 = 1116;

/// The largest number of batches in a row that is counted.
pub const MAX_BATCHES: u64 = 0xffff_ffff;

/// The sum of the squares from 1 to `n`.
pub open spec fn sum_of_squares(n: nat) -> nat
    decreases n,
{
    if n == 0 {
        0
    } else {
        sum_of_squares((n - 1) as nat) + n * n
    }
}

/// What `n` batches in a row that are full at once add up to.
pub open spec fn sum_of_haste(n: nat) -> nat
    decreases n,
{
    if n == 0 {
        0
    } else {
        sum_of_haste((n - 1) as nat) + (((n - 1) * 25) / (n as int)) as nat
    }
}

/// The counters that decide on the number of sockets.
#[derive(Debug, Clone, Copy, PartialEq, Eq, Structural)]
pub struct Meters {
    pub removal: u64,
    pub addition: u64,
    /// Batches in a row that were full early.
    pub early: u64,
    /// Batches in a row that left when their time was over.
    pub on_time: u64,
}

/// What happens to the pool.
#[derive(Debug, Clone, Copy, PartialEq, Eq, Structural)]
pub struct PoolChange {
    /// The socket that is given up.
    pub removed: Option<usize>,
    /// Whether a socket is to be added.
    pub add: bool,
}

impl Meters {
    /// No batch has left yet.
    pub open spec fn fresh() -> Meters {
        Meters { removal: 0, addition: 0, early: 0, on_time: 0 }
    }

    /// Neither meter is full.
    pub open spec fn wf(self) -> bool {
        self.removal < REMOVAL_THRESHOLD && self.addition < ADDITION_THRESHOLD
    }

    /// Whether one more batch can be counted.
    pub open spec fn room(self) -> bool {
        self.early < MAX_BATCHES && self.on_time < MAX_BATCHES
    }

    /// The time that was left when a batch took `elapsed` milliseconds.
    pub open spec fn time_left(elapsed: u64) -> int {
        if elapsed < BUFFER_TIMEOUT {
            BUFFER_TIMEOUT - elapsed
        } else {
            0
        }
    }

    /// The batches in a row after one more that took `elapsed` milliseconds: early and on
    /// time.
    pub open spec fn counted(self, elapsed: u64) -> (int, int) {
        if Self::time_left(elapsed) == 0 {
            (if self.early <= 2 { 1 } else { self.early - 1 }, self.on_time + 1)
        } else {
            (self.early + 1, if self.on_time == 0 { 0 } else { self.on_time - 1 })
        }
    }

    /// The removal meter after one more batch, before it is emptied.
    pub open spec fn removal_level(self, elapsed: u64) -> int {
        self.removal + self.counted(elapsed).1 * self.counted(elapsed).1
    }

    /// The addition meter after one more batch, before it is emptied.
    pub open spec fn addition_level(self, elapsed: u64) -> int {
        let n = Self::time_left(elapsed);
        let early = self.counted(elapsed).0;
        self.addition + ((early - 1) * (n * n)) / early
    }

    /// The meters after one more batch.
    pub open spec fn after(self, elapsed: u64) -> Meters {
        let removal = self.removal_level(elapsed);
        let addition = self.addition_level(elapsed);
        Meters {
            removal: if removal >= REMOVAL_THRESHOLD { 0 } else { removal as u64 },
            addition: if addition >= ADDITION_THRESHOLD { 0 } else { addition as u64 },
            early: self.counted(elapsed).0 as u64,
            on_time: self.counted(elapsed).1 as u64,
        }
    }

    /// The meters after `count` batches in a row that took `elapsed` milliseconds each.
    pub open spec fn after_row(self, elapsed: u64, count: nat) -> Meters
        decreases count,
    {
        if count == 0 {
            self
        } else {
            self.after_row(elapsed, (count - 1) as nat).after(elapsed)
        }
    }
}

/// The pool of sockets that packets leave by, by their places in it.
#[derive(Debug, Clone, Copy, PartialEq, Eq, Structural)]
pub struct OutboundSockets {
    pub count: usize,
    pub current: usize,
    pub meters: Meters,
}

impl OutboundSockets {
    /// There is always a socket, and it is always the turn of one of them.
    pub open spec fn wf(self) -> bool {
        self.current < self.count && self.meters.wf()
    }

    /// The place after the current one.
    pub open spec fn next(self) -> int {
        if self.current + 1 == self.count {
            0
        } else {
            self.current + 1
        }
    }

    /// What one more batch does to the pool.
    pub open spec fn change(self, elapsed: u64) -> PoolChange {
        PoolChange {
            removed: if self.meters.removal_level(elapsed) >= REMOVAL_THRESHOLD && self.count > 1 {
                Some(self.next() as usize)
            } else {
                None
            },
            add: self.meters.addition_level(elapsed) >= ADDITION_THRESHOLD,
        }
    }

    /// The pool after one more batch. The socket whose turn it is stays the same one.
    pub open spec fn updated(self, elapsed: u64) -> OutboundSockets {
        let meters = self.meters.after(elapsed);
        if self.change(elapsed).removed is Some {
            OutboundSockets {
                count: (self.count - 1) as usize,
                current: if self.next() == 0 { (self.current - 1) as usize } else { self.current },
                meters,
            }
        } else {
            OutboundSockets { meters, ..self }
        }
    }

    /// A pool of one socket.
    pub fn new() -> (s: Self)
        ensures
            s == (OutboundSockets { count: 1, current: 0, meters: Meters::fresh() }),
            s.wf(),
    {
        OutboundSockets {
            count: 1,
            current: 0,
            meters: Meters { removal: 0, addition: 0, early: 0, on_time: 0 },
        }
    }

    /// Goes on to the next socket.
    fn next_socket(&mut self)
        requires
            old(self).wf(),
        ensures
            *final(self) == (OutboundSockets {
                current: old(self).next() as usize,
                ..*old(self)
            }),
            final(self).wf(),
    {
        if self.current == self.count - 1 {
            self.current = 0;
        } else {
            self.current = self.current + 1;
        }
    }

    /// The place of the socket whose turn it is. The next one is next.
    pub fn retrieve(&mut self) -> (place: usize)
        requires
            old(self).wf(),
        ensures
            place == old(self).current,
            place < old(self).count,
            *final(self) == (OutboundSockets {
                current: old(self).next() as usize,
                ..*old(self)
            }),
            final(self).wf(),
    {
        let place: usize = self.current;
        self.next_socket();
        place
    }

    /// Takes note of a batch that took `elapsed` milliseconds. Tells which socket is given
    /// up and whether another is wanted. The latter counts once it is
    /// [there](Self::add_socket).
    pub fn update(&mut self, elapsed: u64) -> (change: PoolChange)
        requires
            old(self).wf(),
            old(self).meters.room(),
        ensures
            change == old(self).change(elapsed),
            *final(self) == old(self).updated(elapsed),
            final(self).wf(),
    {
        let n: u64 = BUFFER_TIMEOUT.saturating_sub(elapsed);
        let before: Meters = self.meters;
        let (early, on_time): (u64, u64) = if n == 0 {
            (before.early.saturating_sub(2) + 1, before.on_time + 1)
        } else {
            (before.early + 1, before.on_time.saturating_sub(1))
        };
        assert(on_time * on_time <= 0xffff_ffff * 0xffff_ffff) by (nonlinear_arith)
            requires
                0 <= on_time <= 0xffff_ffff,
        ;
        assert(0 <= n * n <= 25) by (nonlinear_arith)
            requires
                0 <= n <= 5,
        ;
        assert(0 <= (early - 1) * (n * n) <= 0xffff_ffff * 25) by (nonlinear_arith)
            requires
                1 <= early <= 0xffff_ffff,
                0 <= n * n <= 25,
        ;
        assert(0 <= ((early - 1) * (n * n)) / (early as int) <= (early - 1) * (n * n))
            by (nonlinear_arith)
            requires
                1 <= early,
                0 <= (early - 1) * (n * n),
        ;
        let removal: u64 = before.removal + on_time * on_time;
        let addition: u64 = before.addition + ((early - 1) * (n * n)) / early;
        let mut removed: Option<usize> = None;
        let mut meters: Meters = Meters { removal, addition, early, on_time };
        if removal >= REMOVAL_THRESHOLD {
            meters.removal = 0;
            if self.count > 1 {
                if self.current == self.count - 1 {
                    removed = Some(0);
                    self.current = self.current - 1;
                } else {
                    removed = Some(self.current + 1);
                }
                self.count = self.count - 1;
            }
        }
        let add: bool = addition >= ADDITION_THRESHOLD;
        if add {
            meters.addition = 0;
        }
        self.meters = meters;
        PoolChange { removed, add }
    }

    /// A socket was added. It comes last.
    pub fn add_socket(&mut self)
        requires
            old(self).wf(),
            old(self).count < usize::MAX,
        ensures
            *final(self) == (OutboundSockets { count: (old(self).count + 1) as usize, ..*old(self) }),
            final(self).wf(),
    {
        self.count = self.count + 1;
    }
}

proof fn lemma_sum_of_squares(n: int)
    requires
        0 <= n,
    ensures
        6 * sum_of_squares(n as nat) == n * (n + 1) * (2 * n + 1),
    decreases n,
{
    if n == 0 {
        assert(0 * (0 + 1) * (2 * 0 + 1) == 0) by (nonlinear_arith);
    } else {
        lemma_sum_of_squares(n - 1);
        let before: int = sum_of_squares((n - 1) as nat) as int;
        let sum: int = sum_of_squares(n as nat) as int;
        assert(6 * sum == n * (n + 1) * (2 * n + 1)) by (nonlinear_arith)
            requires
                sum == before + n * n,
                6 * before == (n - 1) * ((n - 1) + 1) * (2 * (n - 1) + 1),
        ;
    }
}

proof fn lemma_haste_step(n: int, q: int)
    requires
        1 <= n,
        q * n <= (n - 1) * 25 < (q + 1) * n,
    ensures
        sum_of_haste(n as nat) == sum_of_haste((n - 1) as nat) + q,
{
    assert(((n - 1) * 25) / n == q && q >= 0) by (nonlinear_arith)
        requires
            1 <= n,
            q * n <= (n - 1) * 25 < (q + 1) * n,
    ;
}

proof fn lemma_sum_of_haste(n: nat)
    requires
        25 <= n,
    ensures
        sum_of_haste(n) == 516 + 24 * (n - 25),
    decreases n,
{
    if n == 25 {
        lemma_haste_step(1, 0);
        lemma_haste_step(2, 12);
        lemma_haste_step(3, 16);
        lemma_haste_step(4, 18);
        lemma_haste_step(5, 20);
        lemma_haste_step(6, 20);
        lemma_haste_step(7, 21);
        lemma_haste_step(8, 21);
        lemma_haste_step(9, 22);
        lemma_haste_step(10, 22);
        lemma_haste_step(11, 22);
        lemma_haste_step(12, 22);
        lemma_haste_step(13, 23);
        lemma_haste_step(14, 23);
        lemma_haste_step(15, 23);
        lemma_haste_step(16, 23);
        lemma_haste_step(17, 23);
        lemma_haste_step(18, 23);
        lemma_haste_step(19, 23);
        lemma_haste_step(20, 23);
        lemma_haste_step(21, 23);
        lemma_haste_step(22, 23);
        lemma_haste_step(23, 23);
        lemma_haste_step(24, 23);
        lemma_haste_step(25, 24);
    } else {
        lemma_sum_of_haste((n - 1) as nat);
        lemma_haste_step(n as int, 24);
    }
}

/// The removal threshold is the sum of squares that its name promises.
pub proof fn removal_threshold_is_the_sum()
    ensures
        REMOVAL_THRESHOLD == sum_of_squares(BUFFERS_BEFORE_REMOVE as nat),
{
    lemma_sum_of_squares(100);
    assert(100 * (100 + 1) * (2 * 100 + 1) == 6 * 338350) by (nonlinear_arith);
}

/// The addition threshold is what as many hasty batches as it stands for add up to.
pub proof fn addition_threshold_is_the_sum()
    ensures
        ADDITION_THRESHOLD == sum_of_haste(BUFFERS_BEFORE_ADD as nat),
{
    lemma_sum_of_haste(BUFFERS_BEFORE_ADD as nat);
}

proof fn lemma_sum_of_squares_grows(m: nat, n: nat)
    requires
        m < n,
    ensures
        sum_of_squares(m) < sum_of_squares(n),
    decreases n,
{
    assert(n * n >= 1) by (nonlinear_arith)
        requires
            n >= 1,
    ;
    if m + 1 < n {
        lemma_sum_of_squares_grows(m, (n - 1) as nat);
    }
}

proof fn lemma_sum_of_haste_grows(m: nat, n: nat)
    requires
        1 <= m < n,
    ensures
        sum_of_haste(m) < sum_of_haste(n),
    decreases n,
{
    assert(((n - 1) * 25) / (n as int) >= 1) by (nonlinear_arith)
        requires
            n >= 2,
    ;
    if m + 1 < n {
        lemma_sum_of_haste_grows(m, (n - 1) as nat);
    }
}

/// From a fresh start, batches that leave when their time is over give up a socket exactly
/// when there have been [`BUFFERS_BEFORE_REMOVE`] of them in a row: before that the meter
/// holds the sum of the squares so far.
pub proof fn idle_row_removes(elapsed: u64, count: nat)
    requires
        elapsed >= BUFFER_TIMEOUT,
        count < BUFFERS_BEFORE_REMOVE,
    ensures
        Meters::fresh().after_row(elapsed, count).on_time == count,
        Meters::fresh().after_row(elapsed, count).removal == sum_of_squares(count),
        Meters::fresh().after_row(elapsed, count).removal_level(elapsed) >= REMOVAL_THRESHOLD
            <==> count + 1 == BUFFERS_BEFORE_REMOVE,
    decreases count,
{
    removal_threshold_is_the_sum();
    if count > 0 {
        idle_row_removes(elapsed, (count - 1) as nat);
        lemma_sum_of_squares_grows(count, BUFFERS_BEFORE_REMOVE as nat);
    }
    if count + 1 < BUFFERS_BEFORE_REMOVE {
        lemma_sum_of_squares_grows(count + 1, BUFFERS_BEFORE_REMOVE as nat);
    }
    assert(sum_of_squares(count + 1) == sum_of_squares(count) + (count + 1) * (count + 1));
}

/// From a fresh start, batches that are full at once add a socket exactly when there have
/// been [`BUFFERS_BEFORE_ADD`] of them in a row.
pub proof fn busy_row_adds(count: nat)
    requires
        count < BUFFERS_BEFORE_ADD,
    ensures
        Meters::fresh().after_row(0, count).early == count,
        Meters::fresh().after_row(0, count).addition == sum_of_haste(count),
        Meters::fresh().after_row(0, count).addition_level(0) >= ADDITION_THRESHOLD <==> count + 1
            == BUFFERS_BEFORE_ADD,
    decreases count,
{
    addition_threshold_is_the_sum();
    if count > 0 {
        busy_row_adds((count - 1) as nat);
        lemma_sum_of_haste_grows(count, BUFFERS_BEFORE_ADD as nat);
    }
    if count + 1 < BUFFERS_BEFORE_ADD {
        lemma_sum_of_haste_grows(count + 1, BUFFERS_BEFORE_ADD as nat);
    }
    assert(sum_of_haste(count + 1) == sum_of_haste(count) + ((count * 25) / (count + 1)) as nat);
    assert(count * (5 * 5) == count * 25) by (nonlinear_arith);
}

} // verus!
