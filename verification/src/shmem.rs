//! Layout of the two shared memory segments.
//!
//! A segment is viewed as a map from cells to words. A process id is stored as
//! the 32-bit word of the same two's complement bits.

use vstd::prelude::*;

use crate::access::{Access, Cell, Width};

verus! {

pub const MAX_MANAGERS: usize = 64;

pub const MAX_WORKERS: usize = 32;

pub const MAX_PROCESSES: usize = 64;

pub const NPU_DEVICE_MAX: usize = 8;

pub type LocalState = u32;

/// No batch is running.
pub const STATE_IDLE: LocalState = 0;

/// Workers may take tokens of the current batch.
pub const STATE_RUNNING: LocalState = 1;

/// Workers that took part in the current batch report how long it took.
pub const STATE_MEASURING: LocalState = 2;

/// A manager's entry in the global registry.
#[derive(Debug, Clone, Copy)]
pub struct GlobalManagerSlot {
    pub pid: i32,
    pub avg_kernel_time: u64,
    pub last_heartbeat: u64,
    pub is_active: u32,
    pub priority: u64,
}

/// The segment that all managers of a device share.
#[derive(Debug, Clone, Copy)]
pub struct GlobalRegistry {
    pub lock_owner: u32,
    pub lock_timestamp: u64,
    pub queue_head: u32,
    pub queue_tail: u32,
    pub queue: [u32; MAX_MANAGERS],
    pub slots: [GlobalManagerSlot; MAX_MANAGERS],
    pub signal_counter: u32,
}

/// What a worker reports of the batch it took part in.
#[derive(Debug, Clone, Copy)]
pub struct LocalWorkerReport {
    pub batch_id: u64,
    pub cpu_start_us: u64,
    pub duration_us: u64,
    pub occupied: u32,
    pub pid: i32,
}

/// Device memory held by one process, per device. A process id of 0 marks a
/// slot without an owner.
#[derive(Debug, Clone, Copy)]
pub struct ProcessSlot {
    pub pid: i32,
    pub hbm_used: [u64; NPU_DEVICE_MAX],
    pub is_active: u32,
}

/// The segment that a manager shares with the workers of its container.
#[derive(Debug, Clone, Copy)]
pub struct LocalContainerShmem {
    pub memory_limit: u64,
    pub memory_used: u64,
    pub compute_priority: u64,
    pub state: u32,
    pub batch_id: u64,
    pub tokens_remaining: u64,
    pub active_workers: u32,
    pub reported_count: u32,
    pub reports: [LocalWorkerReport; MAX_WORKERS],
    pub procs: [ProcessSlot; MAX_PROCESSES],
}

/// The word that stores a process id.
pub open spec fn pid_word(pid: i32) -> u64 {
    if pid >= 0 {
        pid as u64
    } else {
        (pid + 0x1_0000_0000) as u64
    }
}

/// The process id that a word stores.
pub open spec fn word_pid(word: u64) -> i32 {
    let low = word % 0x1_0000_0000;
    if low < 0x8000_0000 {
        low as i32
    } else {
        (low - 0x1_0000_0000) as i32
    }
}

/// Encodes a process id.
pub fn encode_pid(pid: i32) -> (word: u64)
    ensures
        word == pid_word(pid),
{
    if pid >= 0 {
        pid as u64
    } else {
        (pid as i64 + 0x1_0000_0000) as u64
    }
}

/// Decodes a process id.
pub fn decode_pid(word: u64) -> (pid: i32)
    ensures
        pid == word_pid(word),
{
    let low: u64 = word % 0x1_0000_0000;
    if low < 0x8000_0000 {
        low as i32
    } else {
        (low as i64 - 0x1_0000_0000) as i32
    }
}

/// A process id survives being stored: encoding and decoding undo each other.
pub proof fn law_pid_round_trip(pid: i32, word: u64)
    ensures
        word_pid(pid_word(pid)) == pid,
        pid_word(pid) < 0x1_0000_0000,
        word < 0x1_0000_0000 ==> pid_word(word_pid(word)) == word,
{
}

/// The words of a [`LocalContainerShmem`].
#[derive(Debug, Clone, Copy, PartialEq, Eq, Structural)]
pub enum LocalCell {
    MemoryLimit,
    MemoryUsed,
    ComputePriority,
    State,
    BatchId,
    TokensRemaining,
    ActiveWorkers,
    ReportedCount,
    ReportBatchId(usize),
    ReportCpuStart(usize),
    ReportDuration(usize),
    ReportOccupied(usize),
    ReportPid(usize),
    ProcPid(usize),
    /// Process slot, then device.
    ProcHbm(usize, usize),
    ProcActive(usize),
}

impl Cell for LocalCell {
    open spec fn width(self) -> Width {
        match self {
            LocalCell::State => Width::W32,
            LocalCell::ActiveWorkers => Width::W32,
            LocalCell::ReportedCount => Width::W32,
            LocalCell::ReportOccupied(_) => Width::W32,
            LocalCell::ReportPid(_) => Width::W32,
            LocalCell::ProcPid(_) => Width::W32,
            LocalCell::ProcActive(_) => Width::W32,
            _ => Width::W64,
        }
    }

    open spec fn valid(self) -> bool {
        match self {
            LocalCell::ReportBatchId(i) => i < MAX_WORKERS,
            LocalCell::ReportCpuStart(i) => i < MAX_WORKERS,
            LocalCell::ReportDuration(i) => i < MAX_WORKERS,
            LocalCell::ReportOccupied(i) => i < MAX_WORKERS,
            LocalCell::ReportPid(i) => i < MAX_WORKERS,
            LocalCell::ProcPid(i) => i < MAX_PROCESSES,
            LocalCell::ProcHbm(i, d) => i < MAX_PROCESSES && d < NPU_DEVICE_MAX,
            LocalCell::ProcActive(i) => i < MAX_PROCESSES,
            _ => true,
        }
    }
}

/// The words of a [`GlobalRegistry`].
#[derive(Debug, Clone, Copy, PartialEq, Eq, Structural)]
pub enum GlobalCell {
    LockOwner,
    LockTimestamp,
    QueueHead,
    QueueTail,
    Queue(usize),
    SlotPid(usize),
    SlotAvg(usize),
    SlotHeartbeat(usize),
    SlotActive(usize),
    SlotPriority(usize),
    SignalCounter,
}

impl Cell for GlobalCell {
    open spec fn width(self) -> Width {
        match self {
            GlobalCell::LockTimestamp => Width::W64,
            GlobalCell::SlotAvg(_) => Width::W64,
            GlobalCell::SlotHeartbeat(_) => Width::W64,
            GlobalCell::SlotPriority(_) => Width::W64,
            _ => Width::W32,
        }
    }

    open spec fn valid(self) -> bool {
        match self {
            GlobalCell::Queue(i) => i < MAX_MANAGERS,
            GlobalCell::SlotPid(i) => i < MAX_MANAGERS,
            GlobalCell::SlotAvg(i) => i < MAX_MANAGERS,
            GlobalCell::SlotHeartbeat(i) => i < MAX_MANAGERS,
            GlobalCell::SlotActive(i) => i < MAX_MANAGERS,
            GlobalCell::SlotPriority(i) => i < MAX_MANAGERS,
            _ => true,
        }
    }
}

impl LocalCell {
    fn width_exec(self) -> (width: Width)
        ensures
            width == self.width(),
    {
        match self {
            LocalCell::State | LocalCell::ActiveWorkers | LocalCell::ReportedCount => Width::W32,
            LocalCell::ReportOccupied(_) | LocalCell::ReportPid(_) => Width::W32,
            LocalCell::ProcPid(_) | LocalCell::ProcActive(_) => Width::W32,
            _ => Width::W64,
        }
    }
}

impl GlobalCell {
    fn width_exec(self) -> (width: Width)
        ensures
            width == self.width(),
    {
        match self {
            GlobalCell::LockTimestamp | GlobalCell::SlotAvg(_) => Width::W64,
            GlobalCell::SlotHeartbeat(_) | GlobalCell::SlotPriority(_) => Width::W64,
            _ => Width::W32,
        }
    }
}

impl View for LocalContainerShmem {
    type V = Map<LocalCell, u64>;

    open spec fn view(&self) -> Map<LocalCell, u64> {
        Map::new(|c: LocalCell| c.valid(), |c: LocalCell| self.word(c))
    }
}

impl LocalContainerShmem {
    /// The word that a cell holds.
    pub open spec fn word(&self, cell: LocalCell) -> u64 {
        match cell {
            LocalCell::MemoryLimit => self.memory_limit,
            LocalCell::MemoryUsed => self.memory_used,
            LocalCell::ComputePriority => self.compute_priority,
            LocalCell::State => self.state as u64,
            LocalCell::BatchId => self.batch_id,
            LocalCell::TokensRemaining => self.tokens_remaining,
            LocalCell::ActiveWorkers => self.active_workers as u64,
            LocalCell::ReportedCount => self.reported_count as u64,
            LocalCell::ReportBatchId(i) => self.reports[i as int].batch_id,
            LocalCell::ReportCpuStart(i) => self.reports[i as int].cpu_start_us,
            LocalCell::ReportDuration(i) => self.reports[i as int].duration_us,
            LocalCell::ReportOccupied(i) => self.reports[i as int].occupied as u64,
            LocalCell::ReportPid(i) => pid_word(self.reports[i as int].pid),
            LocalCell::ProcPid(i) => pid_word(self.procs[i as int].pid),
            LocalCell::ProcHbm(i, d) => self.procs[i as int].hbm_used[d as int],
            LocalCell::ProcActive(i) => self.procs[i as int].is_active as u64,
        }
    }

    /// A segment of zeros, which is what a new segment holds.
    pub fn zeroed() -> (shmem: LocalContainerShmem)
        ensures
            forall|cell: LocalCell| cell.valid() ==> #[trigger] shmem@[cell] == 0,
    {
        let report = LocalWorkerReport {
            batch_id: 0,
            cpu_start_us: 0,
            duration_us: 0,
            occupied: 0,
            pid: 0,
        };
        let process = ProcessSlot { pid: 0, hbm_used: [0; NPU_DEVICE_MAX], is_active: 0 };
        LocalContainerShmem {
            memory_limit: 0,
            memory_used: 0,
            compute_priority: 0,
            state: STATE_IDLE,
            batch_id: 0,
            tokens_remaining: 0,
            active_workers: 0,
            reported_count: 0,
            reports: [report; MAX_WORKERS],
            procs: [process; MAX_PROCESSES],
        }
    }

    /// Reads a cell.
    pub fn read(&self, cell: LocalCell) -> (word: u64)
        requires
            cell.valid(),
        ensures
            word == self@[cell],
            word < cell.width().span(),
    {
        match cell {
            LocalCell::MemoryLimit => self.memory_limit,
            LocalCell::MemoryUsed => self.memory_used,
            LocalCell::ComputePriority => self.compute_priority,
            LocalCell::State => self.state as u64,
            LocalCell::BatchId => self.batch_id,
            LocalCell::TokensRemaining => self.tokens_remaining,
            LocalCell::ActiveWorkers => self.active_workers as u64,
            LocalCell::ReportedCount => self.reported_count as u64,
            LocalCell::ReportBatchId(i) => self.reports[i].batch_id,
            LocalCell::ReportCpuStart(i) => self.reports[i].cpu_start_us,
            LocalCell::ReportDuration(i) => self.reports[i].duration_us,
            LocalCell::ReportOccupied(i) => self.reports[i].occupied as u64,
            LocalCell::ReportPid(i) => encode_pid(self.reports[i].pid),
            LocalCell::ProcPid(i) => encode_pid(self.procs[i].pid),
            LocalCell::ProcHbm(i, d) => self.procs[i].hbm_used[d],
            LocalCell::ProcActive(i) => self.procs[i].is_active as u64,
        }
    }

    /// Writes a cell.
    pub fn write(&mut self, cell: LocalCell, word: u64)
        requires
            cell.valid(),
            word < cell.width().span(),
        ensures
            final(self)@ == old(self)@.insert(cell, word),
    {
        match cell {
            LocalCell::MemoryLimit => { self.memory_limit = word; },
            LocalCell::MemoryUsed => { self.memory_used = word; },
            LocalCell::ComputePriority => { self.compute_priority = word; },
            LocalCell::State => { self.state = word as u32; },
            LocalCell::BatchId => { self.batch_id = word; },
            LocalCell::TokensRemaining => { self.tokens_remaining = word; },
            LocalCell::ActiveWorkers => { self.active_workers = word as u32; },
            LocalCell::ReportedCount => { self.reported_count = word as u32; },
            LocalCell::ReportBatchId(i) => { self.reports[i].batch_id = word; },
            LocalCell::ReportCpuStart(i) => { self.reports[i].cpu_start_us = word; },
            LocalCell::ReportDuration(i) => { self.reports[i].duration_us = word; },
            LocalCell::ReportOccupied(i) => { self.reports[i].occupied = word as u32; },
            LocalCell::ReportPid(i) => { self.reports[i].pid = decode_pid(word); },
            LocalCell::ProcPid(i) => { self.procs[i].pid = decode_pid(word); },
            LocalCell::ProcHbm(i, d) => { self.procs[i].hbm_used[d] = word; },
            LocalCell::ProcActive(i) => { self.procs[i].is_active = word as u32; },
        }
    }

    /// Performs one access and returns the word from before it.
    pub fn perform(&mut self, access: Access<LocalCell>) -> (reply: u64)
        requires
            access.cell().valid(),
        ensures
            reply == old(self)@[access.cell()],
            final(self)@ == crate::access::effect(old(self)@, access),
    {
        let cell = match access {
            Access::Load(c) => c,
            Access::Store(c, _) => c,
            Access::FetchAdd(c, _) => c,
            Access::FetchSub(c, _) => c,
            Access::Swap(c, _) => c,
            Access::CompareExchange(c, _, _) => c,
        };
        let before: u64 = self.read(cell);
        let after: u64 = access.result(cell.width_exec(), before);
        self.write(cell, after);
        before
    }
}

impl View for GlobalRegistry {
    type V = Map<GlobalCell, u64>;

    open spec fn view(&self) -> Map<GlobalCell, u64> {
        Map::new(|c: GlobalCell| c.valid(), |c: GlobalCell| self.word(c))
    }
}

impl GlobalRegistry {
    /// The word that a cell holds.
    pub open spec fn word(&self, cell: GlobalCell) -> u64 {
        match cell {
            GlobalCell::LockOwner => self.lock_owner as u64,
            GlobalCell::LockTimestamp => self.lock_timestamp,
            GlobalCell::QueueHead => self.queue_head as u64,
            GlobalCell::QueueTail => self.queue_tail as u64,
            GlobalCell::Queue(i) => self.queue[i as int] as u64,
            GlobalCell::SlotPid(i) => pid_word(self.slots[i as int].pid),
            GlobalCell::SlotAvg(i) => self.slots[i as int].avg_kernel_time,
            GlobalCell::SlotHeartbeat(i) => self.slots[i as int].last_heartbeat,
            GlobalCell::SlotActive(i) => self.slots[i as int].is_active as u64,
            GlobalCell::SlotPriority(i) => self.slots[i as int].priority,
            GlobalCell::SignalCounter => self.signal_counter as u64,
        }
    }

    /// A registry of zeros, which is what a new registry holds.
    pub fn zeroed() -> (registry: GlobalRegistry)
        ensures
            forall|cell: GlobalCell| cell.valid() ==> #[trigger] registry@[cell] == 0,
    {
        let slot = GlobalManagerSlot {
            pid: 0,
            avg_kernel_time: 0,
            last_heartbeat: 0,
            is_active: 0,
            priority: 0,
        };
        GlobalRegistry {
            lock_owner: 0,
            lock_timestamp: 0,
            queue_head: 0,
            queue_tail: 0,
            queue: [0; MAX_MANAGERS],
            slots: [slot; MAX_MANAGERS],
            signal_counter: 0,
        }
    }

    /// Reads a cell.
    pub fn read(&self, cell: GlobalCell) -> (word: u64)
        requires
            cell.valid(),
        ensures
            word == self@[cell],
            word < cell.width().span(),
    {
        match cell {
            GlobalCell::LockOwner => self.lock_owner as u64,
            GlobalCell::LockTimestamp => self.lock_timestamp,
            GlobalCell::QueueHead => self.queue_head as u64,
            GlobalCell::QueueTail => self.queue_tail as u64,
            GlobalCell::Queue(i) => self.queue[i] as u64,
            GlobalCell::SlotPid(i) => encode_pid(self.slots[i].pid),
            GlobalCell::SlotAvg(i) => self.slots[i].avg_kernel_time,
            GlobalCell::SlotHeartbeat(i) => self.slots[i].last_heartbeat,
            GlobalCell::SlotActive(i) => self.slots[i].is_active as u64,
            GlobalCell::SlotPriority(i) => self.slots[i].priority,
            GlobalCell::SignalCounter => self.signal_counter as u64,
        }
    }

    /// Writes a cell.
    pub fn write(&mut self, cell: GlobalCell, word: u64)
        requires
            cell.valid(),
            word < cell.width().span(),
        ensures
            final(self)@ == old(self)@.insert(cell, word),
    {
        match cell {
            GlobalCell::LockOwner => { self.lock_owner = word as u32; },
            GlobalCell::LockTimestamp => { self.lock_timestamp = word; },
            GlobalCell::QueueHead => { self.queue_head = word as u32; },
            GlobalCell::QueueTail => { self.queue_tail = word as u32; },
            GlobalCell::Queue(i) => { self.queue[i] = word as u32; },
            GlobalCell::SlotPid(i) => { self.slots[i].pid = decode_pid(word); },
            GlobalCell::SlotAvg(i) => { self.slots[i].avg_kernel_time = word; },
            GlobalCell::SlotHeartbeat(i) => { self.slots[i].last_heartbeat = word; },
            GlobalCell::SlotActive(i) => { self.slots[i].is_active = word as u32; },
            GlobalCell::SlotPriority(i) => { self.slots[i].priority = word; },
            GlobalCell::SignalCounter => { self.signal_counter = word as u32; },
        }
    }

    /// Performs one access and returns the word from before it.
    pub fn perform(&mut self, access: Access<GlobalCell>) -> (reply: u64)
        requires
            access.cell().valid(),
        ensures
            reply == old(self)@[access.cell()],
            final(self)@ == crate::access::effect(old(self)@, access),
    {
        let cell = match access {
            Access::Load(c) => c,
            Access::Store(c, _) => c,
            Access::FetchAdd(c, _) => c,
            Access::FetchSub(c, _) => c,
            Access::Swap(c, _) => c,
            Access::CompareExchange(c, _, _) => c,
        };
        let before: u64 = self.read(cell);
        let after: u64 = access.result(cell.width_exec(), before);
        self.write(cell, after);
        before
    }
}

/// The word of a process id has the id's two's complement bits: it is the id
/// itself, or lies 4294967296 above a negative one.
pub proof fn law_pid_bits(pid: i32, word: u64)
    ensures
        pid_word(pid) == pid || pid_word(pid) == pid + 4_294_967_296,
        pid_word(pid) < 4_294_967_296,
        (word - word_pid(word)) % 4_294_967_296 == 0,
{
}

/// Which field of the segment a cell names.
pub proof fn law_cells_name_fields(shmem: LocalContainerShmem, i: usize, p: usize, d: usize)
    requires
        i < 32,
        p < 64,
        d < 8,
    ensures
        shmem@[LocalCell::MemoryLimit] == shmem.memory_limit,
        shmem@[LocalCell::MemoryUsed] == shmem.memory_used,
        shmem@[LocalCell::ComputePriority] == shmem.compute_priority,
        shmem@[LocalCell::State] == shmem.state,
        shmem@[LocalCell::BatchId] == shmem.batch_id,
        shmem@[LocalCell::TokensRemaining] == shmem.tokens_remaining,
        shmem@[LocalCell::ActiveWorkers] == shmem.active_workers,
        shmem@[LocalCell::ReportedCount] == shmem.reported_count,
        shmem@[LocalCell::ReportBatchId(i)] == shmem.reports[i as int].batch_id,
        shmem@[LocalCell::ReportCpuStart(i)] == shmem.reports[i as int].cpu_start_us,
        shmem@[LocalCell::ReportDuration(i)] == shmem.reports[i as int].duration_us,
        shmem@[LocalCell::ReportOccupied(i)] == shmem.reports[i as int].occupied,
        word_pid(shmem@[LocalCell::ReportPid(i)]) == shmem.reports[i as int].pid,
        word_pid(shmem@[LocalCell::ProcPid(p)]) == shmem.procs[p as int].pid,
        shmem@[LocalCell::ProcHbm(p, d)] == shmem.procs[p as int].hbm_used[d as int],
        shmem@[LocalCell::ProcActive(p)] == shmem.procs[p as int].is_active,
{
    law_pid_round_trip(shmem.reports[i as int].pid, 0);
    law_pid_round_trip(shmem.procs[p as int].pid, 0);
}

/// Which field of the registry a cell names.
pub proof fn law_registry_cells_name_fields(registry: GlobalRegistry, i: usize)
    requires
        i < 64,
    ensures
        registry@[GlobalCell::LockOwner] == registry.lock_owner,
        registry@[GlobalCell::LockTimestamp] == registry.lock_timestamp,
        registry@[GlobalCell::QueueHead] == registry.queue_head,
        registry@[GlobalCell::QueueTail] == registry.queue_tail,
        registry@[GlobalCell::Queue(i)] == registry.queue[i as int],
        word_pid(registry@[GlobalCell::SlotPid(i)]) == registry.slots[i as int].pid,
        registry@[GlobalCell::SlotAvg(i)] == registry.slots[i as int].avg_kernel_time,
        registry@[GlobalCell::SlotHeartbeat(i)] == registry.slots[i as int].last_heartbeat,
        registry@[GlobalCell::SlotActive(i)] == registry.slots[i as int].is_active,
        registry@[GlobalCell::SlotPriority(i)] == registry.slots[i as int].priority,
        registry@[GlobalCell::SignalCounter] == registry.signal_counter,
{
    law_pid_round_trip(registry.slots[i as int].pid, 0);
}

/// No word of the segment is wider than its field.
pub proof fn law_words_fit_their_fields(shmem: LocalContainerShmem, registry: GlobalRegistry)
    ensures
        forall|c: LocalCell| c.valid() ==> #[trigger] shmem@[c] < c.width().span(),
        forall|c: GlobalCell| c.valid() ==> #[trigger] registry@[c] < c.width().span(),
{
    assert forall|c: LocalCell| c.valid() implies #[trigger] shmem@[c] < c.width().span() by {
        match c {
            LocalCell::ReportPid(i) => law_pid_round_trip(shmem.reports[i as int].pid, 0),
            LocalCell::ProcPid(i) => law_pid_round_trip(shmem.procs[i as int].pid, 0),
            _ => {},
        }
    }
    assert forall|c: GlobalCell| c.valid() implies #[trigger] registry@[c] < c.width().span() by {
        match c {
            GlobalCell::SlotPid(i) => law_pid_round_trip(registry.slots[i as int].pid, 0),
            _ => {},
        }
    }
}

} // verus!
