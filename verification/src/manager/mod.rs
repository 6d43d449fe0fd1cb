//! The manager side: a container's turn on the device.

use vstd::prelude::*;

use crate::access::{Access, Step};
use crate::shmem::{GlobalCell, LocalCell};

pub mod baton;
pub mod plan;
pub mod report;
pub mod rest;
pub mod round;
pub mod slot;
pub mod turn;

verus! {

/// How long the owner of the turn may be silent before others take it away.
pub const GLOBAL_WATCHDOG_TIMEOUT_US: u64 = 1_000_000;

/// How long a manager sleeps before it looks for its turn again.
pub const GLOBAL_WAIT_POLL_US: u64 = 1_000;

/// The average that a manager starts from.
pub const DEFAULT_AVG_US: u64 = 500;

/// Bytes in a MiB.
pub const MB_TO_BYTES: u64 = 1_048_576;

/// What a manager's operation asks for next.
#[derive(Debug, Clone, Copy, PartialEq, Eq, Structural)]
pub enum ManagerAction {
    Global(Access<GlobalCell>),
    Local(Access<LocalCell>),
    /// Microseconds since the epoch.
    WallClock,
    /// Nanoseconds on a clock that never goes back.
    Monotonic,
    /// Sleep for some nanoseconds.
    Sleep(u64),
    /// Let other threads run.
    Yield,
    /// Wake everybody who waits for the global signal.
    WakeGlobal,
    /// Wake everybody who waits for the local state.
    WakeLocal,
    /// Sleep while the global signal holds this value, at most for some
    /// microseconds.
    WaitGlobal(u64, u64),
}

/// The reply that a manager gets when nobody else interferes and the wall clock
/// shows `now`.
pub open spec fn lone_reply(
    registry: Map<GlobalCell, u64>,
    now: u64,
    action: ManagerAction,
) -> u64 {
    match action {
        ManagerAction::Global(access) => registry[access.cell()],
        ManagerAction::WallClock => now,
        _ => 0,
    }
}

/// The registry after an action of a manager.
pub open spec fn lone_effect(
    registry: Map<GlobalCell, u64>,
    action: ManagerAction,
) -> Map<GlobalCell, u64> {
    match action {
        ManagerAction::Global(access) => crate::access::effect(registry, access),
        _ => registry,
    }
}

/// Shows that a manager is alive: the time goes to the turn's timestamp, then,
/// read again, to the manager's slot.
#[derive(Debug, Clone, Copy, PartialEq, Eq, Structural)]
pub enum Heartbeat {
    ReadForTurn,
    StoreTurn(u64),
    ReadForSlot,
    StoreSlot(u64),
    Finished,
}

impl Heartbeat {
    /// What the heartbeat of a manager asks for.
    pub open spec fn asks(self, manager: usize) -> Step<ManagerAction, ()> {
        match self {
            Heartbeat::ReadForTurn => Step::Do(ManagerAction::WallClock),
            Heartbeat::StoreTurn(now) => Step::Do(
                ManagerAction::Global(Access::Store(GlobalCell::LockTimestamp, now)),
            ),
            Heartbeat::ReadForSlot => Step::Do(ManagerAction::WallClock),
            Heartbeat::StoreSlot(now) => Step::Do(
                ManagerAction::Global(Access::Store(GlobalCell::SlotHeartbeat(manager), now)),
            ),
            Heartbeat::Finished => Step::Done(()),
        }
    }

    /// The heartbeat once it has the reply to what it asked.
    pub open spec fn next(self, reply: u64) -> Heartbeat {
        match self {
            Heartbeat::ReadForTurn => Heartbeat::StoreTurn(reply),
            Heartbeat::StoreTurn(_) => Heartbeat::ReadForSlot,
            Heartbeat::ReadForSlot => Heartbeat::StoreSlot(reply),
            Heartbeat::StoreSlot(_) => Heartbeat::Finished,
            Heartbeat::Finished => Heartbeat::Finished,
        }
    }

    /// Starts a heartbeat.
    pub fn start() -> (beat: Heartbeat)
        ensures
            beat == Heartbeat::ReadForTurn,
    {
        Heartbeat::ReadForTurn
    }

    /// Tells what to do next.
    pub fn step(&self, manager: usize) -> (step: Step<ManagerAction, ()>)
        ensures
            step == self.asks(manager),
    {
        match self {
            Heartbeat::ReadForTurn => Step::Do(ManagerAction::WallClock),
            Heartbeat::StoreTurn(now) => Step::Do(
                ManagerAction::Global(Access::Store(GlobalCell::LockTimestamp, *now)),
            ),
            Heartbeat::ReadForSlot => Step::Do(ManagerAction::WallClock),
            Heartbeat::StoreSlot(now) => Step::Do(
                ManagerAction::Global(Access::Store(GlobalCell::SlotHeartbeat(manager), *now)),
            ),
            Heartbeat::Finished => Step::Done(()),
        }
    }

    /// Takes the reply to what was asked.
    pub fn advance(&mut self, reply: u64)
        ensures
            *final(self) == old(self).next(reply),
    {
        let beat = *self;
        match beat {
            Heartbeat::ReadForTurn => {
                *self = Heartbeat::StoreTurn(reply);
            },
            Heartbeat::StoreTurn(_) => {
                *self = Heartbeat::ReadForSlot;
            },
            Heartbeat::ReadForSlot => {
                *self = Heartbeat::StoreSlot(reply);
            },
            Heartbeat::StoreSlot(_) => {
                *self = Heartbeat::Finished;
            },
            Heartbeat::Finished => {},
        }
    }
}

/// The registry after a sequence of actions.
pub open spec fn registry_after(
    registry: Map<GlobalCell, u64>,
    actions: Seq<ManagerAction>,
) -> Map<GlobalCell, u64>
    decreases actions.len(),
{
    if actions.len() == 0 {
        registry
    } else {
        lone_effect(registry_after(registry, actions.drop_last()), actions.last())
    }
}

/// The local segment after a sequence of actions.
pub open spec fn segment_after(
    memory: Map<LocalCell, u64>,
    actions: Seq<ManagerAction>,
) -> Map<LocalCell, u64>
    decreases actions.len(),
{
    if actions.len() == 0 {
        memory
    } else {
        let before = segment_after(memory, actions.drop_last());
        match actions.last() {
            ManagerAction::Local(access) => crate::access::effect(before, access),
            _ => before,
        }
    }
}

} // verus!
