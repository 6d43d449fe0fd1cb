//! Device memory in use, and what processes that ended have left behind.

use vstd::prelude::*;

use crate::access::{Access, Cell, Step, Width};
use crate::liveness::ProcessTable;
use crate::shmem::{decode_pid, LocalCell, LocalContainerShmem, MAX_PROCESSES, NPU_DEVICE_MAX};
use crate::worker::WorkerAction;

verus! {

/// Where a [`UsageScan`] stands.
#[derive(Debug, Clone, Copy, PartialEq, Eq, Structural)]
pub enum UsagePhase {
    ReadPid,
    CheckAlive(u64),
    /// The owner has ended: take the slot away from it.
    Claim(u64),
    TakeHbm,
    Deactivate(u64),
    ReadHbm,
    /// The slot has no owner: see whether one that gave it up left anything.
    ReadLeft,
    /// Take the slot as a process that registers does.
    ClaimLeft,
    TakeLeft,
    FreeLeft(u64),
    /// All slots are done: give back what ended processes held.
    Release,
    /// Give back what was left in slots without an owner.
    ReadCounter,
    /// The counter that was seen.
    Lower(u64),
    ReadUsed,
    /// The counter is below what live processes hold.
    Raise(u64),
    Finished,
    Overflowed,
}

/// Adds up what live processes hold of a device and clears the slots of
/// processes that have ended, and those that were given up.
#[derive(Debug, Clone, Copy, PartialEq, Eq, Structural)]
pub struct UsageScan {
    pub device: usize,
    pub index: usize,
    pub total: u64,
    /// What ended processes held.
    pub cleaned: u64,
    /// What was left in slots without an owner, as far as it fits.
    pub left: u64,
    pub phase: UsagePhase,
}

/// A sum, or the largest 64-bit number where it is larger.
pub open spec fn saturated(sum: int) -> u64 {
    if sum > u64::MAX {
        u64::MAX
    } else {
        sum as u64
    }
}

impl UsageScan {
    /// A scan that has not looked at anything yet.
    pub open spec fn initial(device: usize) -> UsageScan {
        UsageScan { device, index: 0, total: 0, cleaned: 0, left: 0, phase: UsagePhase::ReadPid }
    }

    /// What the scan asks for.
    pub open spec fn asks(self) -> Step<WorkerAction, u64> {
        match self.phase {
            UsagePhase::ReadPid => Step::Do(
                WorkerAction::Memory(Access::Load(LocalCell::ProcPid(self.index))),
            ),
            UsagePhase::CheckAlive(owner) => Step::Do(
                WorkerAction::CheckAlive(crate::shmem::word_pid(owner)),
            ),
            UsagePhase::Claim(owner) => Step::Do(
                WorkerAction::Memory(
                    Access::CompareExchange(LocalCell::ProcPid(self.index), owner, 0),
                ),
            ),
            UsagePhase::TakeHbm => Step::Do(
                WorkerAction::Memory(Access::Swap(LocalCell::ProcHbm(self.index, self.device), 0)),
            ),
            UsagePhase::Deactivate(_) => Step::Do(
                WorkerAction::Memory(Access::Store(LocalCell::ProcActive(self.index), 0)),
            ),
            UsagePhase::ReadHbm => Step::Do(
                WorkerAction::Memory(Access::Load(LocalCell::ProcHbm(self.index, self.device))),
            ),
            UsagePhase::ReadLeft => Step::Do(
                WorkerAction::Memory(Access::Load(LocalCell::ProcHbm(self.index, self.device))),
            ),
            UsagePhase::ClaimLeft => Step::Do(
                WorkerAction::Memory(
                    Access::CompareExchange(LocalCell::ProcActive(self.index), 0, 1),
                ),
            ),
            UsagePhase::TakeLeft => Step::Do(
                WorkerAction::Memory(Access::Swap(LocalCell::ProcHbm(self.index, self.device), 0)),
            ),
            UsagePhase::FreeLeft(_) => Step::Do(
                WorkerAction::Memory(Access::Store(LocalCell::ProcActive(self.index), 0)),
            ),
            UsagePhase::Release => Step::Do(
                WorkerAction::Memory(Access::FetchSub(LocalCell::MemoryUsed, self.cleaned)),
            ),
            UsagePhase::ReadCounter => Step::Do(
                WorkerAction::Memory(Access::Load(LocalCell::MemoryUsed)),
            ),
            UsagePhase::Lower(seen) => Step::Do(
                WorkerAction::Memory(
                    Access::CompareExchange(
                        LocalCell::MemoryUsed,
                        seen,
                        crate::worker::client::monus(seen as int, self.left as int) as u64,
                    ),
                ),
            ),
            UsagePhase::ReadUsed => Step::Do(
                WorkerAction::Memory(Access::Load(LocalCell::MemoryUsed)),
            ),
            UsagePhase::Raise(missing) => Step::Do(
                WorkerAction::Memory(Access::FetchAdd(LocalCell::MemoryUsed, missing)),
            ),
            UsagePhase::Finished => Step::Done(self.total),
            UsagePhase::Overflowed => Step::Overflow,
        }
    }

    /// The scan in another phase.
    pub open spec fn at(self, phase: UsagePhase) -> UsageScan {
        UsageScan { phase, ..self }
    }

    /// The scan behind the current slot.
    pub open spec fn past_slot(self) -> UsageScan {
        if self.index + 1 < MAX_PROCESSES {
            UsageScan { index: (self.index + 1) as usize, phase: UsagePhase::ReadPid, ..self }
        } else if self.cleaned > 0 {
            self.at(UsagePhase::Release)
        } else {
            self.past_ended()
        }
    }

    /// The scan once what ended processes held is given back.
    pub open spec fn past_ended(self) -> UsageScan {
        if self.left > 0 {
            self.at(UsagePhase::ReadCounter)
        } else {
            self.at(UsagePhase::ReadUsed)
        }
    }

    /// The scan once it has the reply to what it asked.
    pub open spec fn next(self, reply: u64) -> UsageScan {
        match self.phase {
            UsagePhase::ReadPid => if reply == 0 {
                self.at(UsagePhase::ReadLeft)
            } else {
                self.at(UsagePhase::CheckAlive(reply))
            },
            UsagePhase::CheckAlive(owner) => if reply == 0 {
                self.at(UsagePhase::Claim(owner))
            } else {
                self.at(UsagePhase::ReadHbm)
            },
            UsagePhase::Claim(owner) => if reply == owner {
                self.at(UsagePhase::TakeHbm)
            } else {
                self.past_slot()
            },
            UsagePhase::TakeHbm => self.at(UsagePhase::Deactivate(reply)),
            UsagePhase::Deactivate(leaked) => if self.cleaned + leaked <= u64::MAX {
                UsageScan { cleaned: (self.cleaned + leaked) as u64, ..self }.past_slot()
            } else {
                self.at(UsagePhase::Overflowed)
            },
            UsagePhase::ReadHbm => if self.total + reply <= u64::MAX {
                UsageScan { total: (self.total + reply) as u64, ..self }.past_slot()
            } else {
                self.at(UsagePhase::Overflowed)
            },
            UsagePhase::ReadLeft => if reply == 0 {
                self.past_slot()
            } else {
                self.at(UsagePhase::ClaimLeft)
            },
            UsagePhase::ClaimLeft => if reply == 0 {
                self.at(UsagePhase::TakeLeft)
            } else {
                self.past_slot()
            },
            UsagePhase::TakeLeft => self.at(UsagePhase::FreeLeft(reply)),
            UsagePhase::FreeLeft(bytes) => UsageScan {
                left: saturated(self.left + bytes),
                ..self
            }.past_slot(),
            UsagePhase::Release => self.past_ended(),
            UsagePhase::ReadCounter => self.at(UsagePhase::Lower(reply)),
            UsagePhase::Lower(seen) => if reply == seen {
                self.at(UsagePhase::ReadUsed)
            } else {
                self.at(UsagePhase::Lower(reply))
            },
            UsagePhase::ReadUsed => if self.total > reply {
                self.at(UsagePhase::Raise((self.total - reply) as u64))
            } else {
                self.at(UsagePhase::Finished)
            },
            UsagePhase::Raise(_) => self.at(UsagePhase::Finished),
            UsagePhase::Finished => self,
            UsagePhase::Overflowed => self,
        }
    }

    /// Starts a scan.
    pub fn start(device: usize) -> (scan: UsageScan)
        ensures
            scan == UsageScan::initial(device),
    {
        UsageScan { device, index: 0, total: 0, cleaned: 0, left: 0, phase: UsagePhase::ReadPid }
    }

    /// Tells what to do next.
    pub fn step(&self) -> (step: Step<WorkerAction, u64>)
        ensures
            step == self.asks(),
    {
        let access = match self.phase {
            UsagePhase::ReadPid => Access::Load(LocalCell::ProcPid(self.index)),
            UsagePhase::CheckAlive(owner) => {
                return Step::Do(WorkerAction::CheckAlive(decode_pid(owner)));
            },
            UsagePhase::Claim(owner) => {
                Access::CompareExchange(LocalCell::ProcPid(self.index), owner, 0)
            },
            UsagePhase::TakeHbm => Access::Swap(LocalCell::ProcHbm(self.index, self.device), 0),
            UsagePhase::Deactivate(_) => Access::Store(LocalCell::ProcActive(self.index), 0),
            UsagePhase::ReadHbm => Access::Load(LocalCell::ProcHbm(self.index, self.device)),
            UsagePhase::ReadLeft => Access::Load(LocalCell::ProcHbm(self.index, self.device)),
            UsagePhase::ClaimLeft => {
                Access::CompareExchange(LocalCell::ProcActive(self.index), 0, 1)
            },
            UsagePhase::TakeLeft => Access::Swap(LocalCell::ProcHbm(self.index, self.device), 0),
            UsagePhase::FreeLeft(_) => Access::Store(LocalCell::ProcActive(self.index), 0),
            UsagePhase::Release => Access::FetchSub(LocalCell::MemoryUsed, self.cleaned),
            UsagePhase::ReadCounter => Access::Load(LocalCell::MemoryUsed),
            UsagePhase::Lower(seen) => {
                let lowered: u64 = if seen > self.left { seen - self.left } else { 0 };
                Access::CompareExchange(LocalCell::MemoryUsed, seen, lowered)
            },
            UsagePhase::ReadUsed => Access::Load(LocalCell::MemoryUsed),
            UsagePhase::Raise(missing) => Access::FetchAdd(LocalCell::MemoryUsed, missing),
            UsagePhase::Finished => {
                return Step::Done(self.total);
            },
            UsagePhase::Overflowed => {
                return Step::Overflow;
            },
        };
        Step::Do(WorkerAction::Memory(access))
    }

    fn leave_slot(&mut self)
        ensures
            *final(self) == old(self).past_slot(),
    {
        if self.index < MAX_PROCESSES - 1 {
            self.index = self.index + 1;
            self.phase = UsagePhase::ReadPid;
        } else if self.cleaned > 0 {
            self.phase = UsagePhase::Release;
        } else {
            self.leave_ended();
        }
    }

    fn leave_ended(&mut self)
        ensures
            *final(self) == old(self).past_ended(),
    {
        if self.left > 0 {
            self.phase = UsagePhase::ReadCounter;
        } else {
            self.phase = UsagePhase::ReadUsed;
        }
    }

    /// Takes the reply to what was asked.
    pub fn advance(&mut self, reply: u64)
        ensures
            *final(self) == old(self).next(reply),
    {
        match self.phase {
            UsagePhase::ReadPid => {
                if reply == 0 {
                    self.phase = UsagePhase::ReadLeft;
                } else {
                    self.phase = UsagePhase::CheckAlive(reply);
                }
            },
            UsagePhase::CheckAlive(owner) => {
                if reply == 0 {
                    self.phase = UsagePhase::Claim(owner);
                } else {
                    self.phase = UsagePhase::ReadHbm;
                }
            },
            UsagePhase::Claim(owner) => {
                if reply == owner {
                    self.phase = UsagePhase::TakeHbm;
                } else {
                    self.leave_slot();
                }
            },
            UsagePhase::TakeHbm => {
                self.phase = UsagePhase::Deactivate(reply);
            },
            UsagePhase::Deactivate(leaked) => {
                match self.cleaned.checked_add(leaked) {
                    Some(cleaned) => {
                        self.cleaned = cleaned;
                        self.leave_slot();
                    },
                    None => {
                        self.phase = UsagePhase::Overflowed;
                    },
                }
            },
            UsagePhase::ReadHbm => {
                match self.total.checked_add(reply) {
                    Some(total) => {
                        self.total = total;
                        self.leave_slot();
                    },
                    None => {
                        self.phase = UsagePhase::Overflowed;
                    },
                }
            },
            UsagePhase::ReadLeft => {
                if reply == 0 {
                    self.leave_slot();
                } else {
                    self.phase = UsagePhase::ClaimLeft;
                }
            },
            UsagePhase::ClaimLeft => {
                if reply == 0 {
                    self.phase = UsagePhase::TakeLeft;
                } else {
                    self.leave_slot();
                }
            },
            UsagePhase::TakeLeft => {
                self.phase = UsagePhase::FreeLeft(reply);
            },
            UsagePhase::FreeLeft(bytes) => {
                self.left = match self.left.checked_add(bytes) {
                    Some(left) => left,
                    None => u64::MAX,
                };
                self.leave_slot();
            },
            UsagePhase::Release => {
                self.leave_ended();
            },
            UsagePhase::ReadCounter => {
                self.phase = UsagePhase::Lower(reply);
            },
            UsagePhase::Lower(seen) => {
                if reply == seen {
                    self.phase = UsagePhase::ReadUsed;
                } else {
                    self.phase = UsagePhase::Lower(reply);
                }
            },
            UsagePhase::ReadUsed => {
                if self.total > reply {
                    self.phase = UsagePhase::Raise(self.total - reply);
                } else {
                    self.phase = UsagePhase::Finished;
                }
            },
            UsagePhase::Raise(_) => {
                self.phase = UsagePhase::Finished;
            },
            UsagePhase::Finished => {},
            UsagePhase::Overflowed => {},
        }
    }
}

/// Whether a process slot belongs to a process that is alive.
pub open spec fn is_held(memory: Map<LocalCell, u64>, live: Set<i32>, slot: int) -> bool {
    let owner = memory[LocalCell::ProcPid(slot as usize)];
    owner != 0 && live.contains(crate::shmem::word_pid(owner))
}

/// Whether a process slot belongs to a process that has ended.
pub open spec fn is_abandoned(memory: Map<LocalCell, u64>, live: Set<i32>, slot: int) -> bool {
    let owner = memory[LocalCell::ProcPid(slot as usize)];
    owner != 0 && !live.contains(crate::shmem::word_pid(owner))
}

/// What live processes among the first slots hold of a device.
pub open spec fn held_usage(
    memory: Map<LocalCell, u64>,
    live: Set<i32>,
    device: usize,
    slots: nat,
) -> nat
    decreases slots,
{
    if slots == 0 {
        0
    } else {
        held_usage(memory, live, device, (slots - 1) as nat) + if is_held(memory, live, slots - 1) {
            memory[LocalCell::ProcHbm((slots - 1) as usize, device)] as nat
        } else {
            0
        }
    }
}

/// What ended processes among the first slots still hold of a device.
pub open spec fn abandoned_usage(
    memory: Map<LocalCell, u64>,
    live: Set<i32>,
    device: usize,
    slots: nat,
) -> nat
    decreases slots,
{
    if slots == 0 {
        0
    } else {
        abandoned_usage(memory, live, device, (slots - 1) as nat) + if is_abandoned(
            memory,
            live,
            slots - 1,
        ) {
            memory[LocalCell::ProcHbm((slots - 1) as usize, device)] as nat
        } else {
            0
        }
    }
}

/// Whether a process slot was given up: it has no owner and is not active. What
/// it counts was left behind.
pub open spec fn is_left(memory: Map<LocalCell, u64>, slot: int) -> bool {
    &&& memory[LocalCell::ProcPid(slot as usize)] == 0
    &&& memory[LocalCell::ProcActive(slot as usize)] == 0
}

/// What was left of a device in slots among the first that were given up.
pub open spec fn left_usage(memory: Map<LocalCell, u64>, device: usize, slots: nat) -> nat
    decreases slots,
{
    if slots == 0 {
        0
    } else {
        left_usage(memory, device, (slots - 1) as nat) + if is_left(memory, slots - 1) {
            memory[LocalCell::ProcHbm((slots - 1) as usize, device)] as nat
        } else {
            0
        }
    }
}

/// The segment once the abandoned slots among the first ones, and those that were
/// given up, are cleared: each has no owner, is not active, and holds nothing of
/// the device.
pub open spec fn swept(
    memory: Map<LocalCell, u64>,
    live: Set<i32>,
    device: usize,
    slots: nat,
) -> Map<LocalCell, u64> {
    Map::new(
        |c: LocalCell| memory.dom().contains(c),
        |c: LocalCell|
            match c {
                LocalCell::ProcPid(i) => if i < slots && is_abandoned(memory, live, i as int) {
                    0
                } else {
                    memory[c]
                },
                LocalCell::ProcActive(i) => if i < slots && is_abandoned(memory, live, i as int) {
                    0
                } else {
                    memory[c]
                },
                LocalCell::ProcHbm(i, d) => if i < slots && d == device && (is_abandoned(
                    memory,
                    live,
                    i as int,
                ) || is_left(memory, i as int)) {
                    0
                } else {
                    memory[c]
                },
                _ => memory[c],
            },
    )
}

/// What the counter of used memory becomes: what ended processes held is taken
/// off, then what was left in slots that were given up, as far as the counter
/// holds it, and it is raised to what live processes hold if it is below that.
pub open spec fn corrected_used(memory: Map<LocalCell, u64>, live: Set<i32>, device: usize) -> u64 {
    let held = held_usage(memory, live, device, MAX_PROCESSES as nat);
    let released = Width::W64.fit(
        memory[LocalCell::MemoryUsed] - abandoned_usage(memory, live, device, MAX_PROCESSES as nat),
    );
    let lowered = crate::worker::client::monus(
        released as int,
        left_usage(memory, device, MAX_PROCESSES as nat) as int,
    );
    if held > lowered {
        held as u64
    } else {
        lowered as u64
    }
}

/// The segment after a whole scan.
pub open spec fn reclaimed(
    memory: Map<LocalCell, u64>,
    live: Set<i32>,
    device: usize,
) -> Map<LocalCell, u64> {
    swept(memory, live, device, MAX_PROCESSES as nat).insert(
        LocalCell::MemoryUsed,
        corrected_used(memory, live, device),
    )
}

/// Whether what live processes hold, and what ended ones left, can be added up.
pub open spec fn usage_fits(memory: Map<LocalCell, u64>, live: Set<i32>, device: usize) -> bool {
    &&& held_usage(memory, live, device, MAX_PROCESSES as nat) <= u64::MAX
    &&& abandoned_usage(memory, live, device, MAX_PROCESSES as nat) <= u64::MAX
}

proof fn lemma_sums_grow(
    memory: Map<LocalCell, u64>,
    live: Set<i32>,
    device: usize,
    few: nat,
    many: nat,
)
    requires
        few <= many,
    ensures
        held_usage(memory, live, device, few) <= held_usage(memory, live, device, many),
        abandoned_usage(memory, live, device, few) <= abandoned_usage(memory, live, device, many),
    decreases many,
{
    if few < many {
        lemma_sums_grow(memory, live, device, few, (many - 1) as nat);
    }
}

impl UsageScan {
    /// How a scan that runs alone relates to the segment it started from.
    #[verifier::opaque]
    pub open spec fn runs(
        self,
        start: Map<LocalCell, u64>,
        memory: Map<LocalCell, u64>,
        live: Set<i32>,
        device: usize,
    ) -> bool {
        let slot = self.index;
        let seen = swept(start, live, device, slot as nat);
        let all = swept(start, live, device, MAX_PROCESSES as nat);
        let released = Width::W64.fit(start[LocalCell::MemoryUsed] - self.cleaned);
        let lowered = crate::worker::client::monus(released as int, self.left as int) as u64;
        &&& self.device == device
        &&& slot < MAX_PROCESSES
        &&& match self.phase {
            UsagePhase::Release | UsagePhase::ReadCounter | UsagePhase::Lower(_)
            | UsagePhase::ReadUsed | UsagePhase::Raise(_) | UsagePhase::Finished => {
                &&& self.total == held_usage(start, live, device, MAX_PROCESSES as nat)
                &&& self.cleaned == abandoned_usage(start, live, device, MAX_PROCESSES as nat)
                &&& self.left == saturated(
                    left_usage(start, device, MAX_PROCESSES as nat) as int,
                )
            },
            _ => {
                &&& self.total == held_usage(start, live, device, slot as nat)
                &&& self.cleaned == abandoned_usage(start, live, device, slot as nat)
                &&& self.left == saturated(left_usage(start, device, slot as nat) as int)
            },
        }
        &&& match self.phase {
            UsagePhase::ReadPid => memory == seen,
            UsagePhase::CheckAlive(owner) => {
                &&& memory == seen
                &&& owner != 0 && owner == start[LocalCell::ProcPid(slot)]
            },
            UsagePhase::Claim(owner) => {
                &&& memory == seen
                &&& owner == start[LocalCell::ProcPid(slot)]
                &&& is_abandoned(start, live, slot as int)
            },
            UsagePhase::TakeHbm => {
                &&& memory == seen.insert(LocalCell::ProcPid(slot), 0)
                &&& is_abandoned(start, live, slot as int)
            },
            UsagePhase::Deactivate(leaked) => {
                &&& memory == seen.insert(LocalCell::ProcPid(slot), 0).insert(
                    LocalCell::ProcHbm(slot, device),
                    0,
                )
                &&& leaked == start[LocalCell::ProcHbm(slot, device)]
                &&& is_abandoned(start, live, slot as int)
            },
            UsagePhase::ReadHbm => {
                &&& memory == seen
                &&& is_held(start, live, slot as int)
            },
            UsagePhase::ReadLeft => {
                &&& memory == seen
                &&& start[LocalCell::ProcPid(slot)] == 0
            },
            UsagePhase::ClaimLeft => {
                &&& memory == seen
                &&& start[LocalCell::ProcPid(slot)] == 0
            },
            UsagePhase::TakeLeft => {
                &&& memory == seen.insert(LocalCell::ProcActive(slot), 1)
                &&& is_left(start, slot as int)
            },
            UsagePhase::FreeLeft(bytes) => {
                &&& memory == seen.insert(LocalCell::ProcActive(slot), 1).insert(
                    LocalCell::ProcHbm(slot, device),
                    0,
                )
                &&& bytes == start[LocalCell::ProcHbm(slot, device)]
                &&& is_left(start, slot as int)
            },
            UsagePhase::Release => memory == all && self.cleaned > 0,
            UsagePhase::ReadCounter => memory == all.insert(LocalCell::MemoryUsed, released),
            UsagePhase::Lower(counter) => {
                &&& memory == all.insert(LocalCell::MemoryUsed, released)
                &&& counter == released
            },
            UsagePhase::ReadUsed => memory == all.insert(LocalCell::MemoryUsed, lowered),
            UsagePhase::Raise(missing) => {
                &&& memory == all.insert(LocalCell::MemoryUsed, lowered)
                &&& missing == self.total - lowered
                &&& self.total > lowered
            },
            UsagePhase::Finished => memory == reclaimed(start, live, device),
            UsagePhase::Overflowed => false,
        }
    }

    /// How many replies a scan that runs alone may still need.
    pub open spec fn remaining(self) -> int {
        match self.phase {
            UsagePhase::ReadPid => 20 + (MAX_PROCESSES - self.index) * 8,
            UsagePhase::CheckAlive(_) => 19 + (MAX_PROCESSES - self.index) * 8,
            UsagePhase::Claim(_) => 18 + (MAX_PROCESSES - self.index) * 8,
            UsagePhase::TakeHbm => 17 + (MAX_PROCESSES - self.index) * 8,
            UsagePhase::Deactivate(_) => 16 + (MAX_PROCESSES - self.index) * 8,
            UsagePhase::ReadHbm => 16 + (MAX_PROCESSES - self.index) * 8,
            UsagePhase::ReadLeft => 19 + (MAX_PROCESSES - self.index) * 8,
            UsagePhase::ClaimLeft => 18 + (MAX_PROCESSES - self.index) * 8,
            UsagePhase::TakeLeft => 17 + (MAX_PROCESSES - self.index) * 8,
            UsagePhase::FreeLeft(_) => 16 + (MAX_PROCESSES - self.index) * 8,
            UsagePhase::Release => 5,
            UsagePhase::ReadCounter => 4,
            UsagePhase::Lower(_) => 3,
            UsagePhase::ReadUsed => 2,
            UsagePhase::Raise(_) => 1,
            UsagePhase::Finished => 0,
            UsagePhase::Overflowed => 0,
        }
    }
}

/// A scan that has not looked at anything is on course.
pub(crate) proof fn lemma_scan_starts(
    start: Map<LocalCell, u64>,
    live: Set<i32>,
    device: usize,
)
    ensures
        UsageScan::initial(device).runs(start, start, live, device),
{
    reveal(UsageScan::runs);
    assert(swept(start, live, device, 0) =~= start);
}

#[verifier::rlimit(40)]
proof fn lemma_scan_stays(
    scan: UsageScan,
    start: Map<LocalCell, u64>,
    memory: Map<LocalCell, u64>,
    live: Set<i32>,
    device: usize,
)
    requires
        scan.runs(start, memory, live, device),
        scan.asks() is Do,
        device < NPU_DEVICE_MAX,
        usage_fits(start, live, device),
        forall|c: LocalCell| c.valid() <==> #[trigger] start.dom().contains(c),
        forall|i: usize| #![auto] i < MAX_PROCESSES ==> start[LocalCell::ProcPid(i)] < Width::W32.span(),
    ensures
        ({
            let action = scan.asks()->Do_0;
            let after = scan.next(crate::worker::lone_reply(memory, live, action));
            &&& action matches WorkerAction::Memory(access) ==> access.cell().valid()
            &&& action is Memory || action is CheckAlive
            &&& after.runs(start, crate::worker::lone_effect(memory, action), live, device)
            &&& 0 <= after.remaining() < scan.remaining()
        }),
{
    reveal(UsageScan::runs);
    let action = scan.asks()->Do_0;
    let reply = crate::worker::lone_reply(memory, live, action);
    let after = scan.next(reply);
    let changed = crate::worker::lone_effect(memory, action);
    let slot = scan.index;
    lemma_sums_grow(start, live, device, (slot + 1) as nat, MAX_PROCESSES as nat);
    let seen = swept(start, live, device, slot as nat);
    let wider = swept(start, live, device, (slot + 1) as nat);
    let all = swept(start, live, device, MAX_PROCESSES as nat);
    match scan.phase {
        UsagePhase::ReadPid => {
            assert(changed =~= memory);
            assert(reply == start[LocalCell::ProcPid(slot)]);
        },
        UsagePhase::CheckAlive(owner) => {},
        UsagePhase::Claim(owner) => {
            assert(reply == owner);
        },
        UsagePhase::TakeHbm => {},
        UsagePhase::Deactivate(leaked) => {
            assert(changed =~= wider);
        },
        UsagePhase::ReadHbm => {
            assert(changed =~= memory);
            assert(wider =~= seen);
        },
        UsagePhase::ReadLeft => {
            assert(changed =~= memory);
            assert(reply == start[LocalCell::ProcHbm(slot, device)]);
            if reply == 0 {
                assert(wider =~= seen);
            }
        },
        UsagePhase::ClaimLeft => {
            assert(reply == start[LocalCell::ProcActive(slot)]);
            if reply != 0 {
                assert(changed =~= memory);
                assert(wider =~= seen);
            }
        },
        UsagePhase::TakeLeft => {},
        UsagePhase::FreeLeft(bytes) => {
            assert(changed =~= wider);
        },
        UsagePhase::Release => {},
        UsagePhase::ReadCounter => {
            assert(changed =~= memory);
        },
        UsagePhase::Lower(counter) => {
            crate::access::lemma_fit_keeps(Width::W64, counter as int);
            crate::access::lemma_fit_keeps(
                Width::W64,
                crate::worker::client::monus(counter as int, scan.left as int),
            );
            assert(changed =~= all.insert(
                LocalCell::MemoryUsed,
                crate::worker::client::monus(counter as int, scan.left as int) as u64,
            ));
        },
        UsagePhase::ReadUsed => {
            assert(changed =~= memory);
        },
        UsagePhase::Raise(missing) => {
            assert(changed =~= reclaimed(start, live, device));
        },
        UsagePhase::Finished => {},
        UsagePhase::Overflowed => {},
    }
    if (after.phase is ReadCounter || after.phase is ReadUsed) && !(scan.phase is Release
        || scan.phase is Lower) {
        crate::access::lemma_fit_keeps(Width::W64, start[LocalCell::MemoryUsed] as int);
        assert(all.insert(LocalCell::MemoryUsed, start[LocalCell::MemoryUsed]) =~= all);
    }
}

proof fn lemma_scan_ends(
    scan: UsageScan,
    start: Map<LocalCell, u64>,
    memory: Map<LocalCell, u64>,
    live: Set<i32>,
    device: usize,
)
    requires
        scan.runs(start, memory, live, device),
    ensures
        !(scan.asks() is Overflow),
        scan.asks() matches Step::Done(total) ==> {
            &&& total == held_usage(start, live, device, MAX_PROCESSES as nat)
            &&& memory == reclaimed(start, live, device)
        },
{
    reveal(UsageScan::runs);
}

/// A scan that runs alone stays on course, and comes nearer to its end, with
/// every reply.
pub(crate) proof fn lemma_scan_turn(
    scan: UsageScan,
    start: Map<LocalCell, u64>,
    memory: Map<LocalCell, u64>,
    live: Set<i32>,
    device: usize,
)
    requires
        scan.runs(start, memory, live, device),
        scan.asks() is Do,
        device < NPU_DEVICE_MAX,
        usage_fits(start, live, device),
        forall|c: LocalCell| c.valid() <==> #[trigger] start.dom().contains(c),
        forall|i: usize| #![auto] i < MAX_PROCESSES ==> start[LocalCell::ProcPid(i)] < Width::W32.span(),
    ensures
        ({
            let action = scan.asks()->Do_0;
            let after = scan.next(crate::worker::lone_reply(memory, live, action));
            &&& action matches WorkerAction::Memory(access) ==> access.cell().valid()
            &&& action is Memory || action is CheckAlive
            &&& after.runs(start, crate::worker::lone_effect(memory, action), live, device)
            &&& 0 <= after.remaining() < scan.remaining()
            &&& !(after.asks() is Overflow)
            &&& after.asks() matches Step::Done(total) ==> {
                &&& total == held_usage(start, live, device, MAX_PROCESSES as nat)
                &&& crate::worker::lone_effect(memory, action) == reclaimed(start, live, device)
            }
        }),
{
    let action = scan.asks()->Do_0;
    let after = scan.next(crate::worker::lone_reply(memory, live, action));
    lemma_scan_stays(scan, start, memory, live, device);
    lemma_scan_ends(after, start, crate::worker::lone_effect(memory, action), live, device);
}

/// Runs a scan on a segment that is held alone.
pub(crate) fn run_scan(
    shmem: &mut LocalContainerShmem,
    procs: &ProcessTable,
    device: usize,
) -> (total: u64)
    requires
        device < NPU_DEVICE_MAX,
        usage_fits(old(shmem)@, procs@, device),
    ensures
        total == held_usage(old(shmem)@, procs@, device, MAX_PROCESSES as nat),
        final(shmem)@ == reclaimed(old(shmem)@, procs@, device),
{
    let ghost before = shmem@;
    let mut scan = UsageScan::start(device);
    proof {
        lemma_scan_starts(before, procs@, device);
    }
    loop
        invariant
            before == old(shmem)@,
            device < NPU_DEVICE_MAX,
            usage_fits(before, procs@, device),
            !(scan.asks() is Overflow),
            scan.asks() matches Step::Done(total) ==> {
                &&& total == held_usage(before, procs@, device, MAX_PROCESSES as nat)
                &&& shmem@ == reclaimed(before, procs@, device)
            },
            forall|c: LocalCell| c.valid() <==> #[trigger] before.dom().contains(c),
            forall|i: usize| #![auto] i < MAX_PROCESSES ==> before[LocalCell::ProcPid(i)] < Width::W32.span(),
            scan.runs(before, shmem@, procs@, device),
        decreases scan.remaining(),
    {
        proof {
            if scan.asks() is Do {
                lemma_scan_turn(scan, before, shmem@, procs@, device);
            }
        }
        match scan.step() {
            Step::Do(WorkerAction::Memory(access)) => {
                let reply: u64 = shmem.perform(access);
                scan.advance(reply);
            },
            Step::Do(WorkerAction::CheckAlive(pid)) => {
                let reply: u64 = if procs.is_alive(pid) { 1 } else { 0 };
                scan.advance(reply);
            },
            Step::Done(total) => {
                return total;
            },
            _ => {
                assert(false);
                return 0;
            },
        }
    }
}

/// How the sums come about: none of the slots amounts to nothing, and a further slot
/// adds its bytes to one of the three sums: to what is held where its owner is
/// alive, to what is abandoned where it has ended, to what is left where there is no
/// owner and the slot is not active.
pub proof fn law_slots_add_up(
    memory: Map<LocalCell, u64>,
    live: Set<i32>,
    device: usize,
    slot: usize,
)
    ensures
        held_usage(memory, live, device, 0) == 0,
        abandoned_usage(memory, live, device, 0) == 0,
        left_usage(memory, device, 0) == 0,
        ({
            let owner = memory[LocalCell::ProcPid(slot)];
            let alive = live.contains(crate::shmem::word_pid(owner));
            let idle = memory[LocalCell::ProcActive(slot)] == 0;
            let bytes = memory[LocalCell::ProcHbm(slot, device)];
            let held = held_usage(memory, live, device, slot as nat + 1) - held_usage(
                memory,
                live,
                device,
                slot as nat,
            );
            let abandoned = abandoned_usage(memory, live, device, slot as nat + 1)
                - abandoned_usage(memory, live, device, slot as nat);
            let left = left_usage(memory, device, slot as nat + 1) - left_usage(
                memory,
                device,
                slot as nat,
            );
            &&& owner != 0 && alive ==> held == bytes && abandoned == 0 && left == 0
            &&& owner != 0 && !alive ==> held == 0 && abandoned == bytes && left == 0
            &&& owner == 0 && idle ==> held == 0 && abandoned == 0 && left == bytes
            &&& owner == 0 && !idle ==> held == 0 && abandoned == 0 && left == 0
        }),
{
}

/// What a whole scan makes of a slot. One of an ended process is cleared for the
/// device that is scanned. One without an owner that is not active keeps nothing of
/// that device. Every other slot, and what is held of other devices, stays.
pub proof fn law_scan_clears_ended(
    memory: Map<LocalCell, u64>,
    live: Set<i32>,
    device: usize,
    slot: usize,
    other: usize,
)
    requires
        slot < 64,
        other != device,
        forall|c: LocalCell| c.valid() ==> #[trigger] memory.dom().contains(c),
        device < 8,
        other < 8,
    ensures
        ({
            let after = reclaimed(memory, live, device);
            let owner = memory[LocalCell::ProcPid(slot)];
            let ended = owner != 0 && !live.contains(crate::shmem::word_pid(owner));
            let given_up = owner == 0 && memory[LocalCell::ProcActive(slot)] == 0;
            &&& after[LocalCell::ProcHbm(slot, other)] == memory[LocalCell::ProcHbm(slot, other)]
            &&& after[LocalCell::ProcHbm(slot, device)] == if ended || given_up {
                0
            } else {
                memory[LocalCell::ProcHbm(slot, device)]
            }
            &&& after[LocalCell::ProcPid(slot)] == if ended {
                0
            } else {
                owner
            }
            &&& after[LocalCell::ProcActive(slot)] == if ended {
                0
            } else {
                memory[LocalCell::ProcActive(slot)]
            }
        }),
{
    let after = reclaimed(memory, live, device);
    assert(LocalCell::ProcHbm(slot, other).valid());
    assert(memory.dom().contains(LocalCell::ProcHbm(slot, other)));
    assert(memory.dom().contains(LocalCell::ProcHbm(slot, device)));
    assert(memory.dom().contains(LocalCell::ProcPid(slot)));
    assert(memory.dom().contains(LocalCell::ProcActive(slot)));
}

/// A whole scan changes none of the words that are not a process slot's, but for the
/// counter of used memory.
pub proof fn law_scan_keeps_the_rest(
    memory: Map<LocalCell, u64>,
    live: Set<i32>,
    device: usize,
    cell: LocalCell,
)
    requires
        memory.dom().contains(cell),
        !(cell is ProcPid) && !(cell is ProcActive) && !(cell is ProcHbm),
        !(cell is MemoryUsed),
    ensures
        reclaimed(memory, live, device)[cell] == memory[cell],
{
}

/// What a whole scan makes of the counter: what the 64 slots of ended processes held
/// is taken off it, and then what was left, but not below nothing; and never is it
/// below what live processes hold.
pub proof fn law_counter_is_corrected(memory: Map<LocalCell, u64>, live: Set<i32>, device: usize)
    requires
        usage_fits(memory, live, device),
    ensures
        ({
            let held = held_usage(memory, live, device, 64);
            let ended = abandoned_usage(memory, live, device, 64);
            let left = left_usage(memory, device, 64);
            let used = memory[LocalCell::MemoryUsed];
            let counted = reclaimed(memory, live, device)[LocalCell::MemoryUsed];
            &&& held <= 0xFFFF_FFFF_FFFF_FFFF
            &&& ended <= 0xFFFF_FFFF_FFFF_FFFF
            &&& counted >= held
            &&& ended <= used ==> counted >= used - ended - left
            &&& ended <= used ==> counted == held || counted == 0 || counted == used - ended - left
            &&& ended <= used && used - ended <= left ==> counted == held
            &&& ended > used ==> {
                let wrapped = used - ended + 0x1_0000_0000_0000_0000;
                &&& counted >= wrapped - left
                &&& counted == held || counted == wrapped - left
            }
        }),
{
    let used = memory[LocalCell::MemoryUsed];
    let ended = abandoned_usage(memory, live, device, 64);
    if ended <= used {
        crate::access::lemma_fit_keeps(Width::W64, used - ended);
    }
}

impl UsageScan {
    /// Whether the scan asks for an access to the segment.
    pub open spec fn asks_for(self, access: Access<LocalCell>) -> bool {
        self.asks() == Step::<WorkerAction, u64>::Do(WorkerAction::Memory(access))
    }
}

/// Whatever others do meanwhile, the bytes of an ended process count once: they are
/// taken only where the slot was claimed away from the very owner that was seen. A
/// claim that is lost leaves all sums as they are.
pub proof fn law_lost_claim_counts_nothing(scan: UsageScan, owner: u64, found: u64)
    requires
        scan.phase == UsagePhase::Claim(owner),
        scan.index < 64,
    ensures
        scan.asks_for(Access::CompareExchange(LocalCell::ProcPid(scan.index), owner, 0)),
        scan.next(found).total == scan.total,
        scan.next(found).cleaned == scan.cleaned,
        scan.next(found).left == scan.left,
        found == owner ==> scan.next(found).asks_for(
            Access::Swap(LocalCell::ProcHbm(scan.index, scan.device), 0),
        ),
        found != owner && scan.index < 63 ==> scan.next(found).asks_for(
            Access::Load(LocalCell::ProcPid((scan.index + 1) as usize)),
        ),
{
}

/// Whatever others do meanwhile, a look at a slot leads to this. One without an
/// owner is passed over unless it counts bytes and can be claimed. Where the owner
/// is alive its bytes count as held; where not, the slot is claimed. Bytes that are
/// taken count once the slot is free again.
pub proof fn law_slot_is_settled(scan: UsageScan, owner: u64, reply: u64, bytes: u64)
    requires
        scan.phase is ReadPid,
        scan.index < 63,
    ensures
        ({
            let further = (scan.index + 1) as usize;
            let seen = scan.next(owner);
            let hbm = LocalCell::ProcHbm(scan.index, scan.device);
            let active = LocalCell::ProcActive(scan.index);
            let beyond = (UsageScan { index: further, ..scan });
            &&& scan.asks_for(Access::Load(LocalCell::ProcPid(scan.index)))
            &&& owner == 0 ==> {
                let claimed = seen.next(bytes);
                let taken = claimed.next(0);
                let freed = taken.next(bytes);
                let sum = scan.left + bytes;
                &&& seen.asks_for(Access::Load(hbm))
                &&& bytes == 0 ==> claimed == beyond
                &&& bytes > 0 ==> {
                    &&& claimed.asks_for(Access::CompareExchange(active, 0, 1))
                    &&& reply != 0 ==> claimed.next(reply) == beyond
                    &&& taken.asks_for(Access::Swap(hbm, 0))
                    &&& freed.asks_for(Access::Store(active, 0))
                    &&& sum <= 0xFFFF_FFFF_FFFF_FFFF ==> freed.next(reply) == (UsageScan {
                        left: sum as u64,
                        ..beyond
                    })
                    &&& sum > 0xFFFF_FFFF_FFFF_FFFF ==> freed.next(reply) == (UsageScan {
                        left: 0xFFFF_FFFF_FFFF_FFFF,
                        ..beyond
                    })
                }
            }
            &&& owner != 0 ==> {
                let lives = seen.next(1);
                let ended = seen.next(0).next(owner);
                let taken = ended.next(bytes);
                &&& seen.asks() == Step::<WorkerAction, u64>::Do(
                    WorkerAction::CheckAlive(crate::shmem::word_pid(owner)),
                )
                &&& lives.asks_for(Access::Load(hbm))
                &&& scan.total + bytes <= 0xFFFF_FFFF_FFFF_FFFF ==> lives.next(bytes) == (
                UsageScan { total: (scan.total + bytes) as u64, ..beyond })
                &&& scan.total + bytes > 0xFFFF_FFFF_FFFF_FFFF ==> lives.next(bytes).asks() is Overflow
                &&& ended.asks_for(Access::Swap(hbm, 0))
                &&& taken.asks_for(Access::Store(active, 0))
                &&& scan.cleaned + bytes <= 0xFFFF_FFFF_FFFF_FFFF ==> taken.next(reply) == (
                UsageScan { cleaned: (scan.cleaned + bytes) as u64, ..beyond })
                &&& scan.cleaned + bytes > 0xFFFF_FFFF_FFFF_FFFF ==> taken.next(
                    reply,
                ).asks() is Overflow
            }
        }),
{
}

/// Whatever others do meanwhile, the counter is lowered from a value that it still
/// holds, by what was left, but not below nothing; a value that it no longer holds
/// is tried again with the new one. Then it is raised by what is missing to what
/// live processes hold, which is the result.
pub proof fn law_counter_is_settled(scan: UsageScan, seen: u64, found: u64, used: u64)
    requires
        scan.phase == UsagePhase::Lower(seen),
    ensures
        seen >= scan.left ==> scan.asks_for(
            Access::CompareExchange(LocalCell::MemoryUsed, seen, (seen - scan.left) as u64),
        ),
        seen < scan.left ==> scan.asks_for(
            Access::CompareExchange(LocalCell::MemoryUsed, seen, 0),
        ),
        found != seen ==> scan.next(found) == (UsageScan {
            phase: UsagePhase::Lower(found),
            ..scan
        }),
        scan.next(seen).asks_for(Access::Load(LocalCell::MemoryUsed)),
        used >= scan.total ==> scan.next(seen).next(used).asks() == Step::<WorkerAction, u64>::Done(
            scan.total,
        ),
        used < scan.total ==> {
            let raising = scan.next(seen).next(used);
            &&& raising.asks_for(
                Access::FetchAdd(LocalCell::MemoryUsed, (scan.total - used) as u64),
            )
            &&& raising.next(found).asks() == Step::<WorkerAction, u64>::Done(scan.total)
        },
{
}

} // verus!
