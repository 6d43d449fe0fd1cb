//! The worker side: a process that launches kernels and allocates device memory.

use vstd::prelude::*;

use crate::access::Access;
use crate::shmem::LocalCell;

pub mod balance;
pub mod bucket;
pub mod client;
pub mod laws;
pub mod quota;
pub mod registration;
pub mod release;
pub mod token;
pub mod usage;

verus! {

/// A call into the device runtime.
#[derive(Debug, Clone, Copy, PartialEq, Eq, Structural)]
pub enum RuntimeCall {
    /// Capture status of a stream; 0 when it is not capturing.
    CaptureStatus(u64),
    DeviceSynchronize,
    /// Event, then stream.
    EventRecord(u64, u64),
    /// Stream, then event.
    StreamWaitEvent(u64, u64),
    StreamSynchronize(u64),
    /// Microseconds between two recorded events.
    ElapsedUs(u64, u64),
}

/// What a worker's operation asks for next.
#[derive(Debug, Clone, Copy, PartialEq, Eq, Structural)]
pub enum WorkerAction {
    Memory(Access<LocalCell>),
    /// Find out whether a process is alive; the reply is 0 when it is not.
    CheckAlive(i32),
    /// Microseconds since the epoch.
    WallClock,
    Runtime(RuntimeCall),
    /// Let other threads run.
    Yield,
    /// Sleep while the state word holds this value.
    Park(u64),
}

/// The reply that a process which holds the segment alone gets.
pub open spec fn lone_reply(memory: Map<LocalCell, u64>, live: Set<i32>, action: WorkerAction) -> u64 {
    match action {
        WorkerAction::Memory(access) => memory[access.cell()],
        WorkerAction::CheckAlive(pid) => if live.contains(pid) { 1 } else { 0 },
        _ => 0,
    }
}

/// The segment after an action of a process which holds it alone.
pub open spec fn lone_effect(memory: Map<LocalCell, u64>, action: WorkerAction) -> Map<LocalCell, u64> {
    match action {
        WorkerAction::Memory(access) => crate::access::effect(memory, access),
        _ => memory,
    }
}

} // verus!
