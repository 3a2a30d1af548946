//! The side of a measurement that asks for streams: the order of its transfers and what it
//! asks for.
use vstd::prelude::*;

use crate::api::dc_proto;
use crate::api::dc_sender::SenderOptions;
use crate::error::ApiErrors;
use crate::utils::random;
use crate::wire;

verus! {

/// The longest stream of a transfer.
pub const MAX_BUFFER_LEN: usize = 256 * 1024 * 1024;

/// Whether a transfer may have the given length.
pub open spec fn valid_buffer_len(buffer_len: usize) -> bool {
    0 < buffer_len <= MAX_BUFFER_LEN
}

/// Refuses a transfer of nothing and one that is too long.
pub fn validate_buffer_len(buffer_len: usize) -> (r: Result<(), ApiErrors>)
    ensures
        r is Ok <==> valid_buffer_len(buffer_len),
        r is Err ==> r->Err_0 == ApiErrors::BufferTooLarge,
{
    if buffer_len == 0 || buffer_len > MAX_BUFFER_LEN {
        return Err(ApiErrors::BufferTooLarge);
    }
    Ok(())
}

/// Refuses a receiver that could never start a transfer.
pub fn validate_parallelism(parallelism: usize) -> (r: Result<(), ApiErrors>)
    ensures
        r is Err <==> parallelism == 0,
        r is Err ==> r->Err_0 == ApiErrors::InvalidPort,
{
    if parallelism == 0 {
        Err(ApiErrors::InvalidPort)
    } else {
        Ok(())
    }
}

/// What a transfer asks for.
#[derive(Debug)]
pub struct TransferRequest {
    /// What the stream grows from.
    pub seed: u64,
    /// The name of the stream.
    pub track_id: Vec<u8>,
}

/// A request for the stream of the given length that grows from the given seed.
pub fn request_with(seed: u64, buffer_len: usize) -> (r: TransferRequest)
    requires
        valid_buffer_len(buffer_len),
    ensures
        r.seed == seed,
        r.track_id@ == dc_proto::track_id(seed, buffer_len as u32),
{
    TransferRequest { seed, track_id: dc_proto::encode_track_id(seed, buffer_len as u32) }
}

/// A request for a stream of the given length that grows from a random seed.
pub fn new_request(buffer_len: usize) -> (r: TransferRequest)
    requires
        valid_buffer_len(buffer_len),
    ensures
        r.track_id@ == dc_proto::track_id(r.seed, buffer_len as u32),
{
    request_with(random::random_u64(), buffer_len)
}

/// What a receiver asks for is served by every sender that allows the length, and what is
/// then sent is what the receiver takes for right.
pub proof fn requests_are_served(seed: u64, buffer_len: usize, options: SenderOptions)
    requires
        valid_buffer_len(buffer_len),
        buffer_len <= options.max_buffer_len,
    ensures
        options.serves(dc_proto::track_id(seed, buffer_len as u32)),
        dc_proto::prg_stream(
            wire::rd64(dc_proto::track_id(seed, buffer_len as u32), 0),
            wire::rd32(dc_proto::track_id(seed, buffer_len as u32), 8) as nat,
        ) == dc_proto::prg_stream(seed, buffer_len as nat),
{
    dc_proto::track_id_round_trips(seed, buffer_len as u32);
}

/// What to do after an attempt at a transfer failed.
#[derive(Debug, Clone, Copy, PartialEq, Eq, Structural)]
pub enum AfterFailure {
    /// Drop the connection, open another and try once more.
    Reopen,
    /// Give the transfer up. If the connection is still there it can be used again.
    GiveUp,
}

/// What to do after an attempt failed. An old connection may just have died; a fresh one is
/// not tried again.
pub fn after_failure(cached: bool) -> (next: AfterFailure)
    ensures
        next == (if cached {
            AfterFailure::Reopen
        } else {
            AfterFailure::GiveUp
        }),
{
    if cached {
        AfterFailure::Reopen
    } else {
        AfterFailure::GiveUp
    }
}

/// What a sweep does next.
#[derive(Debug, Clone, Copy, PartialEq, Eq, Structural)]
pub enum SweepStep {
    /// Begin the transfer of one configuration with one target.
    Start { config: usize, target: usize },
    /// Wait until a transfer ends.
    Wait,
    /// All transfers have ended.
    Done,
}

/// The transfers of every configuration with every target. One configuration comes after
/// another; within one, up to `parallelism` transfers are under way at once.
#[derive(Debug, Clone, Copy, PartialEq, Eq, Structural)]
pub struct Sweep {
    pub configs: usize,
    pub targets: usize,
    pub parallelism: usize,
    /// The configuration that is under way.
    pub config: usize,
    /// The target that is next.
    pub target: usize,
    /// The number of transfers under way.
    pub running: usize,
}

impl Sweep {
    /// Never more under way than allowed, nor than were begun.
    pub open spec fn wf(self) -> bool {
        &&& 0 < self.parallelism
        &&& self.config <= self.configs
        &&& self.target <= self.targets
        &&& self.running <= self.parallelism
        &&& self.running <= self.target
        &&& self.config == self.configs ==> self.target == 0
    }

    /// The number of transfers that were begun.
    pub open spec fn begun(self) -> int {
        self.config * self.targets + self.target
    }

    /// The place of a transfer in the order in which transfers begin.
    pub open spec fn place(self, config: int, target: int) -> int {
        config * self.targets + target
    }

    /// Whether the configuration that is under way is over.
    pub open spec fn config_over(self) -> bool {
        self.target == self.targets && self.running == 0
    }

    /// What comes next.
    pub open spec fn next(self) -> (Sweep, SweepStep)
        decreases self.configs - self.config,
    {
        if self.config >= self.configs {
            (self, SweepStep::Done)
        } else if self.config_over() {
            (Sweep { config: (self.config + 1) as usize, target: 0, ..self }).next()
        } else if self.target < self.targets && self.running < self.parallelism {
            (
                Sweep {
                    target: (self.target + 1) as usize,
                    running: (self.running + 1) as usize,
                    ..self
                },
                SweepStep::Start { config: self.config, target: self.target },
            )
        } else {
            (self, SweepStep::Wait)
        }
    }

    /// A sweep that has not begun.
    pub fn new(configs: usize, targets: usize, parallelism: usize) -> (s: Self)
        requires
            0 < parallelism,
        ensures
            s.wf(),
            s == (Sweep { configs, targets, parallelism, config: 0, target: 0, running: 0 }),
    {
        Sweep { configs, targets, parallelism, config: 0, target: 0, running: 0 }
    }

    /// Goes on.
    pub fn step(&mut self) -> (step: SweepStep)
        requires
            old(self).wf(),
        ensures
            final(self).wf(),
            (*final(self), step) == old(self).next(),
    {
        let ghost whole = self.next();
        while self.config < self.configs && self.target == self.targets && self.running == 0
            invariant
                self.wf(),
                self.next() == whole,
            decreases self.configs - self.config,
        {
            self.config = self.config + 1;
            self.target = 0;
        }
        if self.config >= self.configs {
            return SweepStep::Done;
        }
        if self.target < self.targets && self.running < self.parallelism {
            let step: SweepStep = SweepStep::Start { config: self.config, target: self.target };
            self.target = self.target + 1;
            self.running = self.running + 1;
            step
        } else {
            SweepStep::Wait
        }
    }

    /// A transfer ended.
    pub fn finished(&mut self)
        requires
            old(self).wf(),
            old(self).running > 0,
        ensures
            final(self).wf(),
            *final(self) == (Sweep { running: (old(self).running - 1) as usize, ..*old(self) }),
    {
        self.running = self.running - 1;
    }
}

/// The next transfer to begin is always the one after the last that was begun, so that
/// every configuration meets every target exactly once, the configurations in order. A
/// configuration begins when nothing of the one before is under way. While there is
/// something to wait for, something is under way. At the end everything was begun and
/// nothing is under way.
pub proof fn sweep_is_in_order(sweep: Sweep)
    requires
        sweep.wf(),
    ensures
        sweep.next().0.wf(),
        match sweep.next().1 {
            SweepStep::Start { config, target } => {
                &&& config < sweep.configs
                &&& target < sweep.targets
                &&& sweep.begun() == sweep.place(config as int, target as int)
                &&& sweep.next().0.begun() == sweep.begun() + 1
                &&& config > sweep.config ==> sweep.running == 0
            },
            SweepStep::Wait => sweep.running > 0 && sweep.next().0 == sweep,
            SweepStep::Done => sweep.running == 0 && sweep.next().0.begun() == sweep.begun()
                && sweep.begun() == sweep.configs * sweep.targets,
        },
    decreases sweep.configs - sweep.config,
{
    if sweep.config >= sweep.configs {
    } else if sweep.config_over() {
        let after = Sweep { config: (sweep.config + 1) as usize, target: 0, ..sweep };
        assert(after.begun() == sweep.begun()) by (nonlinear_arith)
            requires
                after.config == sweep.config + 1,
                after.target == 0,
                after.targets == sweep.targets,
                sweep.target == sweep.targets,
        ;
        sweep_is_in_order(after);
    }
}

} // verus!
