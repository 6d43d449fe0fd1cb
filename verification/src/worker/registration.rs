//! Finding slots for a process in the container's segment.

use vstd::prelude::*;

use crate::access::{Access, Cell, Step};
use crate::liveness::ProcessTable;
use crate::shmem::{
    decode_pid, encode_pid, LocalCell, LocalContainerShmem, MAX_PROCESSES, MAX_WORKERS,
    NPU_DEVICE_MAX,
};
use crate::worker::client::SchedulerClient;
use crate::worker::WorkerAction;

verus! {

/// Where a [`WorkerRegistration`] stands.
#[derive(Debug, Clone, Copy, PartialEq, Eq, Structural)]
pub enum WorkerRegPhase {
    /// First pass: look for a slot that already belongs to the process.
    FindOwn,
    ResetBatch,
    ResetStart,
    ResetDuration,
    /// Second pass: look for a free slot, or one whose owner has ended.
    ReadPid,
    ClaimFree,
    StorePid,
    CheckAlive(u64),
    ClaimDead(u64),
    Registered,
    Full,
}

/// Finds a report slot for a process.
#[derive(Debug, Clone, Copy, PartialEq, Eq, Structural)]
pub struct WorkerRegistration {
    pub pid: i32,
    pub index: usize,
    pub phase: WorkerRegPhase,
}

impl WorkerRegistration {
    /// A registration that has not looked at any slot.
    pub open spec fn initial(pid: i32) -> WorkerRegistration {
        WorkerRegistration { pid, index: 0, phase: WorkerRegPhase::FindOwn }
    }

    /// The registration in another phase.
    pub open spec fn at(self, phase: WorkerRegPhase) -> WorkerRegistration {
        WorkerRegistration { phase, ..self }
    }

    /// What the registration asks for. It ends with a slot, or with `None` when
    /// there is none to be had.
    pub open spec fn asks(self) -> Step<WorkerAction, Option<usize>> {
        let i = self.index;
        match self.phase {
            WorkerRegPhase::FindOwn => Step::Do(
                WorkerAction::Memory(Access::Load(LocalCell::ReportPid(i))),
            ),
            WorkerRegPhase::ResetBatch => Step::Do(
                WorkerAction::Memory(Access::Store(LocalCell::ReportBatchId(i), 0)),
            ),
            WorkerRegPhase::ResetStart => Step::Do(
                WorkerAction::Memory(Access::Store(LocalCell::ReportCpuStart(i), 0)),
            ),
            WorkerRegPhase::ResetDuration => Step::Do(
                WorkerAction::Memory(Access::Store(LocalCell::ReportDuration(i), 0)),
            ),
            WorkerRegPhase::ReadPid => Step::Do(
                WorkerAction::Memory(Access::Load(LocalCell::ReportPid(i))),
            ),
            WorkerRegPhase::ClaimFree => Step::Do(
                WorkerAction::Memory(Access::CompareExchange(LocalCell::ReportOccupied(i), 0, 1)),
            ),
            WorkerRegPhase::StorePid => Step::Do(
                WorkerAction::Memory(
                    Access::Store(LocalCell::ReportPid(i), crate::shmem::pid_word(self.pid)),
                ),
            ),
            WorkerRegPhase::CheckAlive(owner) => Step::Do(
                WorkerAction::CheckAlive(crate::shmem::word_pid(owner)),
            ),
            WorkerRegPhase::ClaimDead(owner) => Step::Do(
                WorkerAction::Memory(
                    Access::CompareExchange(
                        LocalCell::ReportPid(i),
                        owner,
                        crate::shmem::pid_word(self.pid),
                    ),
                ),
            ),
            WorkerRegPhase::Registered => Step::Done(Some(i)),
            WorkerRegPhase::Full => Step::Done(None),
        }
    }

    /// The registration behind a slot of the second pass.
    pub open spec fn past_slot(self) -> WorkerRegistration {
        if self.index + 1 < MAX_WORKERS {
            WorkerRegistration {
                index: (self.index + 1) as usize,
                phase: WorkerRegPhase::ReadPid,
                ..self
            }
        } else {
            self.at(WorkerRegPhase::Full)
        }
    }

    /// The registration once it has the reply to what it asked.
    pub open spec fn next(self, reply: u64) -> WorkerRegistration {
        match self.phase {
            WorkerRegPhase::FindOwn => if reply == crate::shmem::pid_word(self.pid) {
                self.at(WorkerRegPhase::ResetBatch)
            } else if self.index + 1 < MAX_WORKERS {
                WorkerRegistration { index: (self.index + 1) as usize, ..self }
            } else {
                WorkerRegistration { index: 0, phase: WorkerRegPhase::ReadPid, ..self }
            },
            WorkerRegPhase::ResetBatch => self.at(WorkerRegPhase::ResetStart),
            WorkerRegPhase::ResetStart => self.at(WorkerRegPhase::ResetDuration),
            WorkerRegPhase::ResetDuration => self.at(WorkerRegPhase::Registered),
            WorkerRegPhase::ReadPid => if reply == 0 {
                self.at(WorkerRegPhase::ClaimFree)
            } else {
                self.at(WorkerRegPhase::CheckAlive(reply))
            },
            WorkerRegPhase::ClaimFree => if reply == 0 {
                self.at(WorkerRegPhase::StorePid)
            } else {
                self.past_slot()
            },
            WorkerRegPhase::StorePid => self.at(WorkerRegPhase::Registered),
            WorkerRegPhase::CheckAlive(owner) => if reply == 0 {
                self.at(WorkerRegPhase::ClaimDead(owner))
            } else {
                self.past_slot()
            },
            WorkerRegPhase::ClaimDead(owner) => if reply == owner {
                self.at(WorkerRegPhase::ResetBatch)
            } else {
                self.past_slot()
            },
            WorkerRegPhase::Registered => self,
            WorkerRegPhase::Full => self,
        }
    }

    /// Starts a registration.
    pub fn start(pid: i32) -> (registration: WorkerRegistration)
        ensures
            registration == WorkerRegistration::initial(pid),
    {
        WorkerRegistration { pid, index: 0, phase: WorkerRegPhase::FindOwn }
    }

    /// Tells what to do next.
    pub fn step(&self) -> (step: Step<WorkerAction, Option<usize>>)
        ensures
            step == self.asks(),
    {
        let i: usize = self.index;
        let access = match self.phase {
            WorkerRegPhase::FindOwn => Access::Load(LocalCell::ReportPid(i)),
            WorkerRegPhase::ResetBatch => Access::Store(LocalCell::ReportBatchId(i), 0),
            WorkerRegPhase::ResetStart => Access::Store(LocalCell::ReportCpuStart(i), 0),
            WorkerRegPhase::ResetDuration => Access::Store(LocalCell::ReportDuration(i), 0),
            WorkerRegPhase::ReadPid => Access::Load(LocalCell::ReportPid(i)),
            WorkerRegPhase::ClaimFree => Access::CompareExchange(LocalCell::ReportOccupied(i), 0, 1),
            WorkerRegPhase::StorePid => Access::Store(
                LocalCell::ReportPid(i),
                encode_pid(self.pid),
            ),
            WorkerRegPhase::CheckAlive(owner) => {
                return Step::Do(WorkerAction::CheckAlive(decode_pid(owner)));
            },
            WorkerRegPhase::ClaimDead(owner) => Access::CompareExchange(
                LocalCell::ReportPid(i),
                owner,
                encode_pid(self.pid),
            ),
            WorkerRegPhase::Registered => {
                return Step::Done(Some(i));
            },
            WorkerRegPhase::Full => {
                return Step::Done(None);
            },
        };
        Step::Do(WorkerAction::Memory(access))
    }

    fn leave_slot(&mut self)
        ensures
            *final(self) == old(self).past_slot(),
    {
        if self.index < MAX_WORKERS - 1 {
            self.index = self.index + 1;
            self.phase = WorkerRegPhase::ReadPid;
        } else {
            self.phase = WorkerRegPhase::Full;
        }
    }

    /// Takes the reply to what was asked.
    pub fn advance(&mut self, reply: u64)
        ensures
            *final(self) == old(self).next(reply),
    {
        match self.phase {
            WorkerRegPhase::FindOwn => {
                if reply == encode_pid(self.pid) {
                    self.phase = WorkerRegPhase::ResetBatch;
                } else if self.index < MAX_WORKERS - 1 {
                    self.index = self.index + 1;
                } else {
                    self.index = 0;
                    self.phase = WorkerRegPhase::ReadPid;
                }
            },
            WorkerRegPhase::ResetBatch => {
                self.phase = WorkerRegPhase::ResetStart;
            },
            WorkerRegPhase::ResetStart => {
                self.phase = WorkerRegPhase::ResetDuration;
            },
            WorkerRegPhase::ResetDuration => {
                self.phase = WorkerRegPhase::Registered;
            },
            WorkerRegPhase::ReadPid => {
                if reply == 0 {
                    self.phase = WorkerRegPhase::ClaimFree;
                } else {
                    self.phase = WorkerRegPhase::CheckAlive(reply);
                }
            },
            WorkerRegPhase::ClaimFree => {
                if reply == 0 {
                    self.phase = WorkerRegPhase::StorePid;
                } else {
                    self.leave_slot();
                }
            },
            WorkerRegPhase::StorePid => {
                self.phase = WorkerRegPhase::Registered;
            },
            WorkerRegPhase::CheckAlive(owner) => {
                if reply == 0 {
                    self.phase = WorkerRegPhase::ClaimDead(owner);
                } else {
                    self.leave_slot();
                }
            },
            WorkerRegPhase::ClaimDead(owner) => {
                if reply == owner {
                    self.phase = WorkerRegPhase::ResetBatch;
                } else {
                    self.leave_slot();
                }
            },
            WorkerRegPhase::Registered => {},
            WorkerRegPhase::Full => {},
        }
    }
}

/// Whether a report slot belongs to a process.
pub open spec fn owns_report(memory: Map<LocalCell, u64>, pid: i32, slot: int) -> bool {
    memory[LocalCell::ReportPid(slot as usize)] == crate::shmem::pid_word(pid)
}

/// Whether a report slot can be had: nobody has claimed it, or its owner has
/// ended.
pub open spec fn report_claimable(memory: Map<LocalCell, u64>, live: Set<i32>, slot: int) -> bool {
    let owner = memory[LocalCell::ReportPid(slot as usize)];
    if owner == 0 {
        memory[LocalCell::ReportOccupied(slot as usize)] == 0
    } else {
        !live.contains(crate::shmem::word_pid(owner))
    }
}

/// Which report slot a process gets: the first that is its own, else the first
/// that can be had, else none.
pub open spec fn report_slot(
    memory: Map<LocalCell, u64>,
    live: Set<i32>,
    pid: i32,
    slot: Option<usize>,
) -> bool {
    let none_own = forall|j: int| 0 <= j < MAX_WORKERS ==> !owns_report(memory, pid, j);
    match slot {
        Some(i) => {
            &&& i < MAX_WORKERS
            &&& if owns_report(memory, pid, i as int) {
                forall|j: int| 0 <= j < i ==> !owns_report(memory, pid, j)
            } else {
                &&& none_own
                &&& report_claimable(memory, live, i as int)
                &&& forall|j: int| 0 <= j < i ==> !report_claimable(memory, live, j)
            }
        },
        None => {
            &&& none_own
            &&& forall|j: int| 0 <= j < MAX_WORKERS ==> !report_claimable(memory, live, j)
        },
    }
}

/// The segment once a process has got a report slot: a slot that had an owner
/// is reset, one that was free is marked as taken.
pub open spec fn report_registered(
    memory: Map<LocalCell, u64>,
    pid: i32,
    slot: Option<usize>,
) -> Map<LocalCell, u64> {
    match slot {
        None => memory,
        Some(i) => if memory[LocalCell::ReportPid(i)] == 0 && !owns_report(memory, pid, i as int) {
            memory.insert(LocalCell::ReportOccupied(i), 1).insert(
                LocalCell::ReportPid(i),
                crate::shmem::pid_word(pid),
            )
        } else {
            memory.insert(LocalCell::ReportPid(i), crate::shmem::pid_word(pid)).insert(
                LocalCell::ReportBatchId(i),
                0,
            ).insert(LocalCell::ReportCpuStart(i), 0).insert(LocalCell::ReportDuration(i), 0)
        },
    }
}

impl WorkerRegistration {
    spec fn runs(
        self,
        start: Map<LocalCell, u64>,
        memory: Map<LocalCell, u64>,
        live: Set<i32>,
    ) -> bool {
        let i = self.index;
        let word = crate::shmem::pid_word(self.pid);
        let second = {
            &&& forall|j: int| 0 <= j < MAX_WORKERS ==> !owns_report(start, self.pid, j)
            &&& forall|j: int| 0 <= j < i ==> !report_claimable(start, live, j)
        };
        let found = {
            &&& report_slot(start, live, self.pid, Some(i))
            &&& owns_report(start, self.pid, i as int) || start[LocalCell::ReportPid(i)] != 0
        };
        let owned = start.insert(LocalCell::ReportPid(i), word);
        &&& i < MAX_WORKERS
        &&& match self.phase {
            WorkerRegPhase::FindOwn => {
                &&& memory == start
                &&& forall|j: int| 0 <= j < i ==> !owns_report(start, self.pid, j)
            },
            WorkerRegPhase::ResetBatch => found && memory == owned,
            WorkerRegPhase::ResetStart => {
                &&& found
                &&& memory == owned.insert(LocalCell::ReportBatchId(i), 0)
            },
            WorkerRegPhase::ResetDuration => {
                &&& found
                &&& memory == owned.insert(LocalCell::ReportBatchId(i), 0).insert(
                    LocalCell::ReportCpuStart(i),
                    0,
                )
            },
            WorkerRegPhase::ReadPid => second && memory == start,
            WorkerRegPhase::ClaimFree => {
                &&& second
                &&& memory == start
                &&& start[LocalCell::ReportPid(i)] == 0
            },
            WorkerRegPhase::StorePid => {
                &&& report_slot(start, live, self.pid, Some(i))
                &&& !owns_report(start, self.pid, i as int)
                &&& start[LocalCell::ReportPid(i)] == 0
                &&& memory == start.insert(LocalCell::ReportOccupied(i), 1)
            },
            WorkerRegPhase::CheckAlive(owner) => {
                &&& second
                &&& memory == start
                &&& owner != 0 && owner == start[LocalCell::ReportPid(i)]
            },
            WorkerRegPhase::ClaimDead(owner) => {
                &&& second
                &&& memory == start
                &&& owner != 0 && owner == start[LocalCell::ReportPid(i)]
                &&& !live.contains(crate::shmem::word_pid(owner))
            },
            WorkerRegPhase::Registered => {
                &&& report_slot(start, live, self.pid, Some(i))
                &&& memory == report_registered(start, self.pid, Some(i))
            },
            WorkerRegPhase::Full => {
                &&& report_slot(start, live, self.pid, None)
                &&& memory == start
            },
        }
    }

    spec fn remaining(self) -> int {
        match self.phase {
            WorkerRegPhase::FindOwn => 400 + (MAX_WORKERS - self.index),
            WorkerRegPhase::ReadPid => 7 + (MAX_WORKERS - self.index) * 4,
            WorkerRegPhase::CheckAlive(_) => 6 + (MAX_WORKERS - self.index) * 4,
            WorkerRegPhase::ClaimFree => 5 + (MAX_WORKERS - self.index) * 4,
            WorkerRegPhase::ClaimDead(_) => 5 + (MAX_WORKERS - self.index) * 4,
            WorkerRegPhase::ResetBatch => 3,
            WorkerRegPhase::ResetStart => 2,
            WorkerRegPhase::ResetDuration => 1,
            WorkerRegPhase::StorePid => 1,
            _ => 0,
        }
    }
}

proof fn lemma_worker_turn(
    registration: WorkerRegistration,
    start: Map<LocalCell, u64>,
    memory: Map<LocalCell, u64>,
    live: Set<i32>,
)
    requires
        registration.runs(start, memory, live),
        registration.asks() is Do,
        forall|c: LocalCell| c.valid() <==> #[trigger] start.dom().contains(c),
        forall|c: LocalCell| c.valid() ==> #[trigger] start[c] < c.width().span(),
    ensures
        ({
            let action = registration.asks()->Do_0;
            let after = registration.next(crate::worker::lone_reply(memory, live, action));
            &&& action matches WorkerAction::Memory(access) ==> access.cell().valid()
            &&& action is Memory || action is CheckAlive
            &&& after.runs(start, crate::worker::lone_effect(memory, action), live)
            &&& after.pid == registration.pid
            &&& 0 <= after.remaining() < registration.remaining()
        }),
{
    let action = registration.asks()->Do_0;
    let reply = crate::worker::lone_reply(memory, live, action);
    let changed = crate::worker::lone_effect(memory, action);
    let i = registration.index;
    let pid = registration.pid;
    let word = crate::shmem::pid_word(pid);
    let owned = start.insert(LocalCell::ReportPid(i), word);
    crate::shmem::law_pid_round_trip(pid, 0);
    match registration.phase {
        WorkerRegPhase::FindOwn => {
            assert(changed =~= memory);
            if reply == word {
                assert(owns_report(start, pid, i as int));
                assert(owned =~= start);
            }
        },
        WorkerRegPhase::ReadPid => {
            assert(changed =~= memory);
        },
        WorkerRegPhase::ClaimFree => {
            if reply == 0 {
                assert(report_claimable(start, live, i as int));
                assert(!owns_report(start, pid, i as int));
            } else {
                assert(changed =~= memory);
            }
        },
        WorkerRegPhase::ClaimDead(owner) => {
            assert(start[LocalCell::ReportPid(i)] < LocalCell::ReportPid(i).width().span());
            assert(reply == owner);
            assert(report_claimable(start, live, i as int));
            assert(!owns_report(start, pid, i as int));
            assert(changed =~= owned);
        },
        WorkerRegPhase::StorePid => {
            assert(changed =~= report_registered(start, pid, Some(i)));
        },
        WorkerRegPhase::ResetDuration => {
            assert(changed =~= report_registered(start, pid, Some(i)));
        },
        _ => {},
    }
}

/// Where a [`ProcRegistration`] stands.
#[derive(Debug, Clone, Copy, PartialEq, Eq, Structural)]
pub enum ProcRegPhase {
    Claim,
    StorePid,
    /// Set what the process holds of a device to nothing.
    Clear(usize),
    Registered,
    Full,
}

/// Finds a process slot for a process.
#[derive(Debug, Clone, Copy, PartialEq, Eq, Structural)]
pub struct ProcRegistration {
    pub pid: i32,
    pub index: usize,
    pub phase: ProcRegPhase,
}

impl ProcRegistration {
    /// A registration that has not looked at any slot.
    pub open spec fn initial(pid: i32) -> ProcRegistration {
        ProcRegistration { pid, index: 0, phase: ProcRegPhase::Claim }
    }

    /// The registration in another phase.
    pub open spec fn at(self, phase: ProcRegPhase) -> ProcRegistration {
        ProcRegistration { phase, ..self }
    }

    /// What the registration asks for. It ends with a slot, or with `None` when
    /// all are taken.
    pub open spec fn asks(self) -> Step<WorkerAction, Option<usize>> {
        let i = self.index;
        match self.phase {
            ProcRegPhase::Claim => Step::Do(
                WorkerAction::Memory(Access::CompareExchange(LocalCell::ProcActive(i), 0, 1)),
            ),
            ProcRegPhase::StorePid => Step::Do(
                WorkerAction::Memory(
                    Access::Store(LocalCell::ProcPid(i), crate::shmem::pid_word(self.pid)),
                ),
            ),
            ProcRegPhase::Clear(device) => Step::Do(
                WorkerAction::Memory(Access::Store(LocalCell::ProcHbm(i, device), 0)),
            ),
            ProcRegPhase::Registered => Step::Done(Some(i)),
            ProcRegPhase::Full => Step::Done(None),
        }
    }

    /// The registration once it has the reply to what it asked.
    pub open spec fn next(self, reply: u64) -> ProcRegistration {
        match self.phase {
            ProcRegPhase::Claim => if reply == 0 {
                self.at(ProcRegPhase::StorePid)
            } else if self.index + 1 < MAX_PROCESSES {
                ProcRegistration { index: (self.index + 1) as usize, ..self }
            } else {
                self.at(ProcRegPhase::Full)
            },
            ProcRegPhase::StorePid => self.at(ProcRegPhase::Clear(0)),
            ProcRegPhase::Clear(device) => if device + 1 < NPU_DEVICE_MAX {
                self.at(ProcRegPhase::Clear((device + 1) as usize))
            } else {
                self.at(ProcRegPhase::Registered)
            },
            ProcRegPhase::Registered => self,
            ProcRegPhase::Full => self,
        }
    }

    /// Starts a registration.
    pub fn start(pid: i32) -> (registration: ProcRegistration)
        ensures
            registration == ProcRegistration::initial(pid),
    {
        ProcRegistration { pid, index: 0, phase: ProcRegPhase::Claim }
    }

    /// Tells what to do next.
    pub fn step(&self) -> (step: Step<WorkerAction, Option<usize>>)
        ensures
            step == self.asks(),
    {
        let i: usize = self.index;
        match self.phase {
            ProcRegPhase::Claim => Step::Do(
                WorkerAction::Memory(Access::CompareExchange(LocalCell::ProcActive(i), 0, 1)),
            ),
            ProcRegPhase::StorePid => Step::Do(
                WorkerAction::Memory(Access::Store(LocalCell::ProcPid(i), encode_pid(self.pid))),
            ),
            ProcRegPhase::Clear(device) => Step::Do(
                WorkerAction::Memory(Access::Store(LocalCell::ProcHbm(i, device), 0)),
            ),
            ProcRegPhase::Registered => Step::Done(Some(i)),
            ProcRegPhase::Full => Step::Done(None),
        }
    }

    /// Takes the reply to what was asked.
    pub fn advance(&mut self, reply: u64)
        ensures
            *final(self) == old(self).next(reply),
    {
        match self.phase {
            ProcRegPhase::Claim => {
                if reply == 0 {
                    self.phase = ProcRegPhase::StorePid;
                } else if self.index < MAX_PROCESSES - 1 {
                    self.index = self.index + 1;
                } else {
                    self.phase = ProcRegPhase::Full;
                }
            },
            ProcRegPhase::StorePid => {
                self.phase = ProcRegPhase::Clear(0);
            },
            ProcRegPhase::Clear(device) => {
                if device < NPU_DEVICE_MAX - 1 {
                    self.phase = ProcRegPhase::Clear(device + 1);
                } else {
                    self.phase = ProcRegPhase::Registered;
                }
            },
            ProcRegPhase::Registered => {},
            ProcRegPhase::Full => {},
        }
    }
}

/// Whether a process slot is free.
pub open spec fn proc_free(memory: Map<LocalCell, u64>, slot: int) -> bool {
    memory[LocalCell::ProcActive(slot as usize)] == 0
}

/// Which process slot a process gets: the first that is free, else none.
pub open spec fn proc_slot(memory: Map<LocalCell, u64>, slot: Option<usize>) -> bool {
    match slot {
        Some(i) => {
            &&& i < MAX_PROCESSES
            &&& proc_free(memory, i as int)
            &&& forall|j: int| 0 <= j < i ==> !proc_free(memory, j)
        },
        None => forall|j: int| 0 <= j < MAX_PROCESSES ==> !proc_free(memory, j),
    }
}

/// The segment with a process slot taken, of which the counts of the first
/// devices are cleared.
pub open spec fn proc_cleared(
    memory: Map<LocalCell, u64>,
    pid: i32,
    slot: usize,
    devices: int,
) -> Map<LocalCell, u64> {
    Map::new(
        |c: LocalCell| memory.dom().contains(c),
        |c: LocalCell|
            match c {
                LocalCell::ProcActive(i) => if i == slot {
                    1
                } else {
                    memory[c]
                },
                LocalCell::ProcPid(i) => if i == slot {
                    crate::shmem::pid_word(pid)
                } else {
                    memory[c]
                },
                LocalCell::ProcHbm(i, d) => if i == slot && d < devices {
                    0
                } else {
                    memory[c]
                },
                _ => memory[c],
            },
    )
}

/// The segment once a process has got a process slot: the slot is active, has
/// its owner, and holds nothing of any device.
pub open spec fn proc_registered(
    memory: Map<LocalCell, u64>,
    pid: i32,
    slot: Option<usize>,
) -> Map<LocalCell, u64> {
    match slot {
        None => memory,
        Some(i) => proc_cleared(memory, pid, i, NPU_DEVICE_MAX as int),
    }
}

impl ProcRegistration {
    spec fn runs(self, start: Map<LocalCell, u64>, memory: Map<LocalCell, u64>) -> bool {
        let i = self.index;
        &&& i < MAX_PROCESSES
        &&& match self.phase {
            ProcRegPhase::Claim => {
                &&& memory == start
                &&& forall|j: int| 0 <= j < i ==> !proc_free(start, j)
            },
            ProcRegPhase::StorePid => {
                &&& proc_slot(start, Some(i))
                &&& memory == start.insert(LocalCell::ProcActive(i), 1)
            },
            ProcRegPhase::Clear(device) => {
                &&& proc_slot(start, Some(i))
                &&& device < NPU_DEVICE_MAX
                &&& memory == proc_cleared(start, self.pid, i, device as int)
            },
            ProcRegPhase::Registered => {
                &&& proc_slot(start, Some(i))
                &&& memory == proc_registered(start, self.pid, Some(i))
            },
            ProcRegPhase::Full => {
                &&& proc_slot(start, None)
                &&& memory == start
            },
        }
    }

    spec fn remaining(self) -> int {
        match self.phase {
            ProcRegPhase::Claim => 20 + (MAX_PROCESSES - self.index),
            ProcRegPhase::StorePid => 15,
            ProcRegPhase::Clear(device) => NPU_DEVICE_MAX - device,
            _ => 0,
        }
    }
}

proof fn lemma_proc_turn(
    registration: ProcRegistration,
    start: Map<LocalCell, u64>,
    memory: Map<LocalCell, u64>,
)
    requires
        registration.runs(start, memory),
        registration.asks() is Do,
        forall|c: LocalCell| c.valid() <==> #[trigger] start.dom().contains(c),
    ensures
        ({
            let action = registration.asks()->Do_0;
            let after = registration.next(
                crate::worker::lone_reply(memory, Set::empty(), action),
            );
            &&& action matches WorkerAction::Memory(access) && access.cell().valid()
            &&& after.runs(start, crate::worker::lone_effect(memory, action))
            &&& after.pid == registration.pid
            &&& 0 <= after.remaining() < registration.remaining()
        }),
{
    let action = registration.asks()->Do_0;
    let reply = crate::worker::lone_reply(memory, Set::empty(), action);
    let changed = crate::worker::lone_effect(memory, action);
    let i = registration.index;
    let pid = registration.pid;
    crate::shmem::law_pid_round_trip(pid, 0);
    match registration.phase {
        ProcRegPhase::Claim => {
            if reply == 0 {
                assert(proc_free(start, i as int));
            } else {
                assert(changed =~= memory);
            }
        },
        ProcRegPhase::StorePid => {
            assert(changed =~= proc_cleared(start, pid, i, 0));
        },
        ProcRegPhase::Clear(device) => {
            assert(changed =~= proc_cleared(start, pid, i, device + 1));
        },
        _ => {},
    }
}

impl SchedulerClient {
    /// Finds a report slot for a process, on a segment that is held alone.
    pub fn register_worker_slot(
        shmem: &mut LocalContainerShmem,
        procs: &ProcessTable,
        pid: i32,
    ) -> (slot: Option<usize>)
        ensures
            report_slot(old(shmem)@, procs@, pid, slot),
            final(shmem)@ == report_registered(old(shmem)@, pid, slot),
    {
        let ghost before = shmem@;
        let mut registration = WorkerRegistration::start(pid);
        loop
            invariant
                before == old(shmem)@,
                registration.pid == pid,
                forall|c: LocalCell| c.valid() <==> #[trigger] before.dom().contains(c),
                forall|c: LocalCell| c.valid() ==> #[trigger] before[c] < c.width().span(),
                registration.runs(before, shmem@, procs@),
            decreases registration.remaining(),
        {
            proof {
                if registration.asks() is Do {
                    lemma_worker_turn(registration, before, shmem@, procs@);
                }
            }
            match registration.step() {
                Step::Do(WorkerAction::Memory(access)) => {
                    let reply: u64 = shmem.perform(access);
                    registration.advance(reply);
                },
                Step::Do(WorkerAction::CheckAlive(owner)) => {
                    let reply: u64 = if procs.is_alive(owner) { 1 } else { 0 };
                    registration.advance(reply);
                },
                Step::Done(slot) => {
                    return slot;
                },
                _ => {
                    assert(false);
                    return None;
                },
            }
        }
    }

    /// Finds a process slot for a process, on a segment that is held alone.
    pub fn register_proc_slot(shmem: &mut LocalContainerShmem, pid: i32) -> (slot: Option<usize>)
        ensures
            proc_slot(old(shmem)@, slot),
            final(shmem)@ == proc_registered(old(shmem)@, pid, slot),
    {
        let ghost before = shmem@;
        let mut registration = ProcRegistration::start(pid);
        loop
            invariant
                before == old(shmem)@,
                registration.pid == pid,
                forall|c: LocalCell| c.valid() <==> #[trigger] before.dom().contains(c),
                registration.runs(before, shmem@),
            decreases registration.remaining(),
        {
            proof {
                if registration.asks() is Do {
                    lemma_proc_turn(registration, before, shmem@);
                }
            }
            match registration.step() {
                Step::Do(WorkerAction::Memory(access)) => {
                    let reply: u64 = shmem.perform(access);
                    registration.advance(reply);
                },
                Step::Done(slot) => {
                    return slot;
                },
                _ => {
                    assert(false);
                    return None;
                },
            }
        }
    }
}

/// What a process could not get.
#[derive(Debug, Clone, Copy, PartialEq, Eq, Structural)]
pub enum NoSlot {
    Report,
    Process,
}

impl SchedulerClient {
    /// Registers a process that uses a device, on a segment that is held alone:
    /// it gets a report slot, then a process slot.
    pub fn new(
        shmem: &mut LocalContainerShmem,
        procs: &ProcessTable,
        pid: i32,
        device_id: usize,
    ) -> (client: Result<SchedulerClient, NoSlot>)
        requires
            device_id < NPU_DEVICE_MAX,
        ensures
            match client {
                Ok(c) => {
                    let reporting = report_registered(old(shmem)@, pid, Some(c.my_slot_idx));
                    &&& report_slot(old(shmem)@, procs@, pid, Some(c.my_slot_idx))
                    &&& proc_slot(reporting, Some(c.my_proc_idx))
                    &&& final(shmem)@ == proc_registered(reporting, pid, Some(c.my_proc_idx))
                    &&& c.wf() && c.connected && c.device_id == device_id
                    &&& c.hbm_handle_map@ == Map::<u64, u64>::empty()
                },
                Err(NoSlot::Report) => {
                    &&& report_slot(old(shmem)@, procs@, pid, None)
                    &&& final(shmem)@ == old(shmem)@
                },
                Err(NoSlot::Process) => exists|slot: usize|
                    {
                        let reporting = report_registered(old(shmem)@, pid, Some(slot));
                        &&& #[trigger] report_slot(old(shmem)@, procs@, pid, Some(slot))
                        &&& proc_slot(reporting, None)
                        &&& final(shmem)@ == reporting
                    },
            },
    {
        let ghost before = shmem@;
        match SchedulerClient::register_worker_slot(shmem, procs, pid) {
            None => Err(NoSlot::Report),
            Some(slot) => {
                assert(report_slot(before, procs@, pid, Some(slot)));
                match SchedulerClient::register_proc_slot(shmem, pid) {
                    None => Err(NoSlot::Process),
                    Some(proc_idx) => Ok(SchedulerClient::with_slots(slot, proc_idx, device_id)),
                }
            },
        }
    }
}

/// A process that registers again gets the report slot it already has.
pub proof fn law_report_slot_is_kept(
    memory: Map<LocalCell, u64>,
    live: Set<i32>,
    later: Set<i32>,
    pid: i32,
    slot: usize,
    again: Option<usize>,
)
    requires
        report_slot(memory, live, pid, Some(slot)),
        report_slot(report_registered(memory, pid, Some(slot)), later, pid, again),
    ensures
        again == Some(slot),
{
    let after = report_registered(memory, pid, Some(slot));
    assert(owns_report(after, pid, slot as int));
    assert forall|j: int| 0 <= j < slot implies !owns_report(after, pid, j) by {
        assert(!owns_report(memory, pid, j));
    }
    match again {
        None => {},
        Some(i) => {
            assert(owns_report(after, pid, i as int));
            if i > slot {
                assert(!owns_report(after, pid, slot as int));
            }
        },
    }
}

/// A process slot that has just been given out is not given out again.
pub proof fn law_proc_slot_is_exclusive(
    memory: Map<LocalCell, u64>,
    pid: i32,
    slot: usize,
    other: Option<usize>,
)
    requires
        proc_slot(memory, Some(slot)),
        forall|c: LocalCell| c.valid() ==> #[trigger] memory.dom().contains(c),
        proc_slot(proc_registered(memory, pid, Some(slot)), other),
    ensures
        other != Some(slot),
{
    assert(LocalCell::ProcActive(slot).valid());
}

/// Which of the 32 report slots a process gets, in words of the segment: the first
/// that names it; where none does, the first that names nobody and is not occupied,
/// or names a process that has ended; none where there is no such slot.
pub proof fn law_report_slot_is_first(
    memory: Map<LocalCell, u64>,
    live: Set<i32>,
    pid: i32,
    slot: Option<usize>,
)
    requires
        report_slot(memory, live, pid, slot),
    ensures
        slot matches Some(i) ==> {
            let word = crate::shmem::pid_word(pid);
            let owner = memory[LocalCell::ReportPid(i)];
            &&& i < 32
            &&& forall|j: usize| j < i ==> #[trigger] memory[LocalCell::ReportPid(j)] != word
            &&& owner != word ==> {
                &&& forall|j: usize| j < 32 ==> #[trigger] memory[LocalCell::ReportPid(j)] != word
                &&& owner == 0 ==> memory[LocalCell::ReportOccupied(i)] == 0
                &&& owner != 0 ==> !live.contains(crate::shmem::word_pid(owner))
                &&& forall|j: usize|
                    j < i && #[trigger] memory[LocalCell::ReportPid(j)] == 0
                        ==> memory[LocalCell::ReportOccupied(j)] != 0
                &&& forall|j: usize|
                    j < i && #[trigger] memory[LocalCell::ReportPid(j)] != 0 ==> live.contains(
                        crate::shmem::word_pid(memory[LocalCell::ReportPid(j)]),
                    )
            }
        },
        slot is None ==> {
            let word = crate::shmem::pid_word(pid);
            &&& forall|j: usize| j < 32 ==> #[trigger] memory[LocalCell::ReportPid(j)] != word
            &&& forall|j: usize|
                j < 32 && #[trigger] memory[LocalCell::ReportPid(j)] == 0
                    ==> memory[LocalCell::ReportOccupied(j)] != 0
            &&& forall|j: usize|
                j < 32 && #[trigger] memory[LocalCell::ReportPid(j)] != 0 ==> live.contains(
                    crate::shmem::word_pid(memory[LocalCell::ReportPid(j)]),
                )
        },
{
    let word = crate::shmem::pid_word(pid);
    let bound: usize = match slot {
        Some(i) => i,
        None => 32,
    };
    let second = match slot {
        Some(i) => memory[LocalCell::ReportPid(i)] != word,
        None => true,
    };
    assert forall|j: usize| j < bound implies #[trigger] memory[LocalCell::ReportPid(j)] != word by {
        assert(!owns_report(memory, pid, j as int));
    }
    if second {
        assert forall|j: usize| j < 32 implies #[trigger] memory[LocalCell::ReportPid(j)]
            != word by {
            assert(!owns_report(memory, pid, j as int));
        }
        assert forall|j: usize| j < bound && #[trigger] memory[LocalCell::ReportPid(j)] == 0
            implies memory[LocalCell::ReportOccupied(j)] != 0 by {
            assert(!report_claimable(memory, live, j as int));
        }
        assert forall|j: usize| j < bound && #[trigger] memory[LocalCell::ReportPid(j)] != 0
            implies live.contains(
            crate::shmem::word_pid(memory[LocalCell::ReportPid(j)]),
        ) by {
            assert(!report_claimable(memory, live, j as int));
        }
    }
}

/// The report slot of a process names it. A slot that named somebody before starts
/// from zeros; one that named nobody is marked as occupied. No other word changes.
pub proof fn law_report_slot_is_prepared(
    memory: Map<LocalCell, u64>,
    pid: i32,
    slot: usize,
    other: LocalCell,
)
    requires
        crate::shmem::pid_word(pid) != 0,
        other != LocalCell::ReportPid(slot),
        other != LocalCell::ReportOccupied(slot),
        other != LocalCell::ReportBatchId(slot),
        other != LocalCell::ReportCpuStart(slot),
        other != LocalCell::ReportDuration(slot),
    ensures
        report_registered(memory, pid, None) == memory,
        ({
            let after = report_registered(memory, pid, Some(slot));
            let batch = LocalCell::ReportBatchId(slot);
            let start = LocalCell::ReportCpuStart(slot);
            let duration = LocalCell::ReportDuration(slot);
            let occupied = LocalCell::ReportOccupied(slot);
            &&& crate::shmem::word_pid(after[LocalCell::ReportPid(slot)]) == pid
            &&& after[other] == memory[other]
            &&& memory[LocalCell::ReportPid(slot)] == 0 ==> {
                &&& after[occupied] == 1
                &&& after[batch] == memory[batch]
                &&& after[start] == memory[start]
                &&& after[duration] == memory[duration]
            }
            &&& memory[LocalCell::ReportPid(slot)] != 0 ==> {
                &&& after[occupied] == memory[occupied]
                &&& after[batch] == 0
                &&& after[start] == 0
                &&& after[duration] == 0
            }
        }),
{
    crate::shmem::law_pid_round_trip(pid, 0);
}

/// A process gets the first of the 64 process slots whose active word is 0; none
/// where all are other than 0.
pub proof fn law_first_free_process_slot_is_taken(
    memory: Map<LocalCell, u64>,
    slot: Option<usize>,
)
    requires
        proc_slot(memory, slot),
    ensures
        slot matches Some(i) ==> {
            &&& i < 64
            &&& memory[LocalCell::ProcActive(i)] == 0
            &&& forall|j: usize| j < i ==> #[trigger] memory[LocalCell::ProcActive(j)] != 0
        },
        slot is None ==> forall|j: usize|
            j < 64 ==> #[trigger] memory[LocalCell::ProcActive(j)] != 0,
{
    let bound: usize = match slot {
        Some(i) => i,
        None => 64,
    };
    assert forall|j: usize| j < bound implies #[trigger] memory[LocalCell::ProcActive(j)] != 0 by {
        assert(!proc_free(memory, j as int));
    }
}

/// The process slot of a process names it, is active and holds nothing of any of the
/// 8 devices. No other word changes.
pub proof fn law_process_slot_is_prepared(
    memory: Map<LocalCell, u64>,
    pid: i32,
    slot: usize,
    device: usize,
    other: LocalCell,
)
    requires
        slot < 64,
        device < 8,
        other.valid(),
        other != LocalCell::ProcPid(slot),
        other != LocalCell::ProcActive(slot),
        other matches LocalCell::ProcHbm(i, _) ==> i != slot,
        forall|c: LocalCell| c.valid() ==> #[trigger] memory.dom().contains(c),
    ensures
        proc_registered(memory, pid, None) == memory,
        ({
            let after = proc_registered(memory, pid, Some(slot));
            &&& crate::shmem::word_pid(after[LocalCell::ProcPid(slot)]) == pid
            &&& after[LocalCell::ProcActive(slot)] == 1
            &&& after[LocalCell::ProcHbm(slot, device)] == 0
            &&& after[other] == memory[other]
        }),
{
    crate::shmem::law_pid_round_trip(pid, 0);
    assert(memory.dom().contains(LocalCell::ProcPid(slot)));
    assert(memory.dom().contains(LocalCell::ProcActive(slot)));
    assert(memory.dom().contains(LocalCell::ProcHbm(slot, device)));
    assert(memory.dom().contains(other));
}

impl WorkerRegistration {
    /// Whether the registration asks for an access to the segment.
    pub open spec fn asks_for(self, access: Access<LocalCell>) -> bool {
        self.asks() == Step::<WorkerAction, Option<usize>>::Do(WorkerAction::Memory(access))
    }

    /// Whether the registration clears a report and ends with its slot.
    pub open spec fn resets(self, slot: usize) -> bool {
        &&& self.asks_for(Access::Store(LocalCell::ReportBatchId(slot), 0))
        &&& forall|r: u64|
            {
                let second = #[trigger] self.next(r);
                &&& second.asks_for(Access::Store(LocalCell::ReportCpuStart(slot), 0))
                &&& second.next(r).asks_for(Access::Store(LocalCell::ReportDuration(slot), 0))
                &&& second.next(r).next(r).asks() == Step::<WorkerAction, Option<usize>>::Done(
                    Some(slot),
                )
            }
    }
}

/// Whatever others do meanwhile, a process first looks for a slot that names it, in
/// order. The first such slot is cleared and is the result. Behind the last of the
/// 32 slots it starts over to look for one that it can claim.
pub proof fn law_own_slot_comes_first(registration: WorkerRegistration, owner: u64)
    requires
        registration.phase is FindOwn,
        registration.index < 32,
    ensures
        registration.asks_for(Access::Load(LocalCell::ReportPid(registration.index))),
        owner == crate::shmem::pid_word(registration.pid) ==> registration.next(owner).resets(
            registration.index,
        ),
        owner != crate::shmem::pid_word(registration.pid) && registration.index < 31
            ==> registration.next(owner) == (WorkerRegistration {
            index: (registration.index + 1) as usize,
            ..registration
        }),
        owner != crate::shmem::pid_word(registration.pid) && registration.index == 31
            ==> registration.next(owner) == (WorkerRegistration {
            index: 0,
            phase: WorkerRegPhase::ReadPid,
            ..registration
        }),
{
}

/// Whatever others do meanwhile, a process claims a slot that names nobody by marking
/// it as occupied, and then puts its name there. It claims a slot of an ended process
/// by putting its name in place of the one it saw, and clears the report. A claim
/// that is lost, and a slot of a process that is alive, lead to the next slot, and
/// behind the last of the 32 to none.
pub proof fn law_slots_are_claimed_in_order(
    registration: WorkerRegistration,
    owner: u64,
    alive: u64,
    found: u64,
    reply: u64,
)
    requires
        registration.phase is ReadPid,
        registration.index < 32,
    ensures
        ({
            let i = registration.index;
            let word = crate::shmem::pid_word(registration.pid);
            let seen = registration.next(owner);
            let beyond = WorkerRegistration {
                index: if i < 31 {
                    (i + 1) as usize
                } else {
                    i
                },
                phase: if i < 31 {
                    WorkerRegPhase::ReadPid
                } else {
                    WorkerRegPhase::Full
                },
                ..registration
            };
            &&& registration.asks_for(Access::Load(LocalCell::ReportPid(i)))
            &&& i == 31 ==> beyond.asks() == Step::<WorkerAction, Option<usize>>::Done(None)
            &&& owner == 0 ==> {
                let won = seen.next(0);
                &&& seen.asks_for(Access::CompareExchange(LocalCell::ReportOccupied(i), 0, 1))
                &&& found != 0 ==> seen.next(found) == beyond
                &&& won.asks_for(Access::Store(LocalCell::ReportPid(i), word))
                &&& won.next(reply).asks() == Step::<WorkerAction, Option<usize>>::Done(Some(i))
            }
            &&& owner != 0 ==> {
                let ended = seen.next(0);
                &&& seen.asks() == Step::<WorkerAction, Option<usize>>::Do(
                    WorkerAction::CheckAlive(crate::shmem::word_pid(owner)),
                )
                &&& alive != 0 ==> seen.next(alive) == beyond
                &&& ended.asks_for(Access::CompareExchange(LocalCell::ReportPid(i), owner, word))
                &&& found != owner ==> ended.next(found) == beyond
                &&& ended.next(owner).resets(i)
            }
        }),
{
}

impl ProcRegistration {
    /// Whether the registration asks for an access to the segment.
    pub open spec fn asks_for(self, access: Access<LocalCell>) -> bool {
        self.asks() == Step::<WorkerAction, Option<usize>>::Do(WorkerAction::Memory(access))
    }
}

/// Whatever others do meanwhile, a process tries the process slots in order. A claim
/// is lost where the slot was active; the 64th lost claim ends the search. In a slot
/// that it wins it puts its name, and then clears what is counted of the 8 devices,
/// one after the other.
pub proof fn law_process_slots_are_tried_in_order(
    registration: ProcRegistration,
    found: u64,
    reply: u64,
)
    requires
        registration.index < 64,
    ensures
        registration.phase is Claim ==> {
            let i = registration.index;
            let word = crate::shmem::pid_word(registration.pid);
            let won = registration.next(0);
            &&& registration.asks_for(Access::CompareExchange(LocalCell::ProcActive(i), 0, 1))
            &&& found != 0 && i < 63 ==> registration.next(found) == (ProcRegistration {
                index: (i + 1) as usize,
                ..registration
            })
            &&& found != 0 && i == 63 ==> registration.next(found).asks() == Step::<
                WorkerAction,
                Option<usize>,
            >::Done(None)
            &&& won.asks_for(Access::Store(LocalCell::ProcPid(i), word))
            &&& won.next(reply) == (ProcRegistration {
                phase: ProcRegPhase::Clear(0),
                ..registration
            })
        },
        registration.phase matches ProcRegPhase::Clear(device) ==> {
            let i = registration.index;
            &&& registration.asks_for(Access::Store(LocalCell::ProcHbm(i, device), 0))
            &&& device < 7 ==> registration.next(reply) == (ProcRegistration {
                phase: ProcRegPhase::Clear((device + 1) as usize),
                ..registration
            })
            &&& device == 7 ==> registration.next(reply).asks() == Step::<
                WorkerAction,
                Option<usize>,
            >::Done(Some(i))
        },
{
}

} // verus!
