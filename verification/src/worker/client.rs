//! A worker's connection to its container.

use std::collections::HashMap;

use vstd::prelude::*;

use crate::access::Access;
use crate::config::VIRTUAL_OVERHEAD_MB;
use crate::externed_api::{RT_ERROR_MEMORY_ALLOCATION, RT_ERROR_NONE};
use crate::liveness::ProcessTable;
use crate::shmem::{LocalCell, LocalContainerShmem, MAX_PROCESSES, MAX_WORKERS, NPU_DEVICE_MAX};

verus! {

broadcast use vstd::std_specs::hash::group_hash_axioms;

/// A process registered with its container, or a stub that limits nothing.
#[derive(Debug)]
pub struct SchedulerClient {
    /// Where the process reports how long batches took.
    pub my_slot_idx: usize,
    /// Where the process accounts for device memory.
    pub my_proc_idx: usize,
    pub device_id: usize,
    /// Whether there is a segment to talk to.
    pub connected: bool,
    /// Size of every allocation that has not been freed, by its handle.
    pub hbm_handle_map: HashMap<u64, u64>,
}

/// Bytes that are kept back when free memory is reported.
pub open spec fn overhead_bytes() -> int {
    VIRTUAL_OVERHEAD_MB * 1024 * 1024
}

/// The difference of two numbers, or 0 where it would be negative.
pub open spec fn monus(a: int, b: int) -> int {
    if a > b {
        a - b
    } else {
        0
    }
}

impl SchedulerClient {
    /// Whether the client's indices lie within the segment.
    pub open spec fn wf(&self) -> bool {
        &&& self.my_slot_idx < MAX_WORKERS
        &&& self.my_proc_idx < MAX_PROCESSES
        &&& self.device_id < NPU_DEVICE_MAX
    }

    /// The word that counts what the client holds of its device.
    pub open spec fn hbm_cell(&self) -> LocalCell {
        LocalCell::ProcHbm(self.my_proc_idx, self.device_id)
    }

    /// The update that accounts for an allocation: the process holds more, or,
    /// where the runtime refused, the reservation is given back.
    pub open spec fn alloc_update(&self, size: u64, rts_return: u64) -> Access<LocalCell> {
        if rts_return == RT_ERROR_NONE {
            Access::FetchAdd(self.hbm_cell(), size)
        } else {
            Access::FetchSub(LocalCell::MemoryUsed, size)
        }
    }

    /// The allocations known after one more.
    pub open spec fn handles_after_alloc(&self, p: u64, size: u64, rts_return: u64) -> Map<u64, u64> {
        if rts_return == RT_ERROR_NONE {
            self.hbm_handle_map@.insert(p, size)
        } else {
            self.hbm_handle_map@
        }
    }

    /// The updates that account for a release. There are none where the runtime
    /// refused, nor for a handle that is not known or held nothing.
    pub open spec fn free_updates(&self, handle: u64, ret: u64) -> Seq<Access<LocalCell>> {
        let handles = self.hbm_handle_map@;
        if ret == RT_ERROR_NONE && handles.contains_key(handle) && handles[handle] > 0 {
            seq![
                Access::FetchSub(LocalCell::MemoryUsed, handles[handle]),
                Access::FetchSub(self.hbm_cell(), handles[handle]),
            ]
        } else {
            Seq::empty()
        }
    }

    /// The allocations known after a release.
    pub open spec fn handles_after_free(&self, handle: u64, ret: u64) -> Map<u64, u64> {
        if ret == RT_ERROR_NONE {
            self.hbm_handle_map@.remove(handle)
        } else {
            self.hbm_handle_map@
        }
    }

    /// Whether another client differs at most in the allocations it knows.
    pub open spec fn same_place(&self, other: &SchedulerClient) -> bool {
        &&& self.my_slot_idx == other.my_slot_idx
        &&& self.my_proc_idx == other.my_proc_idx
        &&& self.device_id == other.device_id
        &&& self.connected == other.connected
    }

    /// A client that holds a report slot and a process slot.
    pub fn with_slots(my_slot_idx: usize, my_proc_idx: usize, device_id: usize) -> (client:
        SchedulerClient)
        requires
            my_slot_idx < MAX_WORKERS,
            my_proc_idx < MAX_PROCESSES,
            device_id < NPU_DEVICE_MAX,
        ensures
            client.wf(),
            client.connected,
            client.my_slot_idx == my_slot_idx,
            client.my_proc_idx == my_proc_idx,
            client.device_id == device_id,
            client.hbm_handle_map@ == Map::<u64, u64>::empty(),
    {
        SchedulerClient {
            my_slot_idx,
            my_proc_idx,
            device_id,
            connected: true,
            hbm_handle_map: HashMap::new(),
        }
    }

    /// A client for environments without shared memory. Limits on device memory
    /// and compute tracking are off: it comes with a segment of its own, which
    /// holds zeros.
    pub fn stub() -> (stub: (SchedulerClient, LocalContainerShmem))
        ensures
            stub.0.wf(),
            !stub.0.connected,
            stub.0.my_slot_idx == 0,
            stub.0.my_proc_idx == 0,
            stub.0.device_id == 0,
            stub.0.hbm_handle_map@ == Map::<u64, u64>::empty(),
            forall|cell: LocalCell|
                crate::access::Cell::valid(cell) ==> #[trigger] stub.1@[cell] == 0,
    {
        let client = SchedulerClient {
            my_slot_idx: 0,
            my_proc_idx: 0,
            device_id: 0,
            connected: false,
            hbm_handle_map: HashMap::new(),
        };
        (client, LocalContainerShmem::zeroed())
    }

    /// The device that the client's process uses.
    pub fn current_device(&self) -> (device: usize)
        ensures
            device == self.device_id,
    {
        self.device_id
    }

    /// Reserves device memory, on a segment that is held alone. The result is 0,
    /// or the code of a failed allocation where the limit would be exceeded.
    pub fn check_memory_quota(
        &self,
        shmem: &mut LocalContainerShmem,
        procs: &ProcessTable,
        size: u64,
    ) -> (code: u64)
        requires
            self.wf(),
            crate::worker::quota::request_fits(old(shmem)@, procs@, self.device_id, size),
        ensures
            code == if crate::worker::quota::is_granted(
                old(shmem)@,
                procs@,
                self.device_id,
                size,
            ) {
                RT_ERROR_NONE
            } else {
                RT_ERROR_MEMORY_ALLOCATION
            },
            final(shmem)@ == crate::worker::quota::requested(
                old(shmem)@,
                procs@,
                self.device_id,
                size,
            ),
    {
        crate::worker::quota::run_check(shmem, procs, self.device_id, size)
    }

    /// Accounts for an allocation that the runtime was asked for, and returns the
    /// update that is to be made.
    pub fn post_alloc_hbm(&mut self, p: u64, size: u64, rts_return: u64) -> (update: Access<
        LocalCell,
    >)
        ensures
            update == old(self).alloc_update(size, rts_return),
            final(self).hbm_handle_map@ == old(self).handles_after_alloc(p, size, rts_return),
            final(self).same_place(old(self)),
    {
        if rts_return == RT_ERROR_NONE {
            self.hbm_handle_map.insert(p, size);
            Access::FetchAdd(LocalCell::ProcHbm(self.my_proc_idx, self.device_id), size)
        } else {
            Access::FetchSub(LocalCell::MemoryUsed, size)
        }
    }

    /// Accounts for a release that the runtime was asked for, and returns the
    /// updates that are to be made, in order.
    pub fn post_free_hbm(&mut self, handle: u64, ret: u64) -> (updates: Vec<Access<LocalCell>>)
        ensures
            updates@ == old(self).free_updates(handle, ret),
            final(self).hbm_handle_map@ == old(self).handles_after_free(handle, ret),
            final(self).same_place(old(self)),
    {
        let mut updates: Vec<Access<LocalCell>> = Vec::new();
        if ret == RT_ERROR_NONE {
            let size: u64 = match self.hbm_handle_map.remove(&handle) {
                Some(size) => size,
                None => 0,
            };
            if size > 0 {
                updates.push(Access::FetchSub(LocalCell::MemoryUsed, size));
                updates.push(
                    Access::FetchSub(LocalCell::ProcHbm(self.my_proc_idx, self.device_id), size),
                );
            }
        }
        updates
    }

    /// Adds up what live processes hold of the client's device and clears the
    /// slots of processes that have ended, and those that were given up, on a
    /// segment that is held alone.
    pub fn recalculate_usage(&self, shmem: &mut LocalContainerShmem, procs: &ProcessTable) -> (total:
        u64)
        requires
            self.wf(),
            crate::worker::usage::usage_fits(old(shmem)@, procs@, self.device_id),
        ensures
            total == crate::worker::usage::held_usage(
                old(shmem)@,
                procs@,
                self.device_id,
                MAX_PROCESSES as nat,
            ),
            final(shmem)@ == crate::worker::usage::reclaimed(old(shmem)@, procs@, self.device_id),
    {
        let device: usize = self.current_device();
        self.recalculate_usage_for_device(shmem, procs, device)
    }

    /// Adds up what live processes hold of a device and clears the slots of
    /// processes that have ended, and those that were given up, on a segment that is
    /// held alone.
    pub fn recalculate_usage_for_device(
        &self,
        shmem: &mut LocalContainerShmem,
        procs: &ProcessTable,
        device: usize,
    ) -> (total: u64)
        requires
            device < NPU_DEVICE_MAX,
            crate::worker::usage::usage_fits(old(shmem)@, procs@, device),
        ensures
            total == crate::worker::usage::held_usage(
                old(shmem)@,
                procs@,
                device,
                MAX_PROCESSES as nat,
            ),
            final(shmem)@ == crate::worker::usage::reclaimed(old(shmem)@, procs@, device),
    {
        crate::worker::usage::run_scan(shmem, procs, device)
    }

    /// Free and total device memory, given the limit and what is in use: the
    /// overhead is kept back from what is free.
    pub fn get_hbm_info(&self, quota: u64, used: u64) -> (info: (u64, u64))
        ensures
            info.0 == monus(monus(quota as int, used as int), overhead_bytes()),
            info.0 == SchedulerClient::reported_free(quota, used),
            info.1 == quota,
    {
        let overhead: u64 = VIRTUAL_OVERHEAD_MB * 1024 * 1024;
        let logical_free: u64 = if quota > used { quota - used } else { 0 };
        let reported_free: u64 = if logical_free > overhead { logical_free - overhead } else { 0 };
        (reported_free, quota)
    }

    /// Whether device memory is limited, given the limit that was read.
    pub fn is_hbm_limited(&self, memory_limit: u64) -> (limited: bool)
        ensures
            limited == (memory_limit > 0),
    {
        memory_limit > 0
    }

    /// The limit on device memory, given the limit that was read.
    pub fn get_hbm_quota(&self, memory_limit: u64) -> (quota: u64)
        ensures
            quota == memory_limit,
    {
        memory_limit
    }

    /// The utilization to report for the device: the device's own, without a
    /// split between containers.
    pub fn get_compute_share(&self, device_util: u32) -> (share: u32)
        ensures
            share == device_util,
    {
        device_util
    }
}

impl SchedulerClient {
    /// The free device memory to report, given the limit and what is in use.
    pub open spec fn reported_free(quota: u64, used: u64) -> int {
        monus(monus(quota as int, used as int), overhead_bytes())
    }
}

/// What is reported as free is what the limit leaves, less 128 MiB; nothing where
/// less than that is left.
pub proof fn law_overhead_is_kept_back(quota: u64, used: u64)
    ensures
        quota >= used + 134_217_728 ==> SchedulerClient::reported_free(quota, used) == quota - used
            - 134_217_728,
        quota < used + 134_217_728 ==> SchedulerClient::reported_free(quota, used) == 0,
{
}

/// An allocation that succeeded adds its size to what the client's slot counts for
/// its device and is known by its handle. One that the runtime refused is taken off
/// the counter of used memory again, and the allocations stay as they were. No other
/// word changes.
pub proof fn law_allocation_is_accounted(
    client: SchedulerClient,
    memory: Map<LocalCell, u64>,
    p: u64,
    size: u64,
    code: u64,
    other: LocalCell,
)
    requires
        other != LocalCell::ProcHbm(client.my_proc_idx, client.device_id),
        !(other is MemoryUsed),
    ensures
        ({
            let cell = LocalCell::ProcHbm(client.my_proc_idx, client.device_id);
            let used = LocalCell::MemoryUsed;
            let after = crate::access::effect(memory, client.alloc_update(size, code));
            let handles = client.handles_after_alloc(p, size, code);
            &&& after[other] == memory[other]
            &&& code == 0 ==> {
                &&& after[used] == memory[used]
                &&& memory[cell] + size <= 0xFFFF_FFFF_FFFF_FFFF ==> after[cell] == memory[cell]
                    + size
                &&& handles.contains_key(p) && handles[p] == size
                &&& forall|q: u64|
                    q != p ==> handles.contains_key(q) == client.hbm_handle_map@.contains_key(q)
                        && #[trigger] handles[q] == client.hbm_handle_map@[q]
            }
            &&& code != 0 ==> {
                &&& after[cell] == memory[cell]
                &&& memory[used] >= size ==> after[used] == memory[used] - size
                &&& handles == client.hbm_handle_map@
            }
        }),
{
}

/// A release that succeeded takes the size of the allocation off the counter of used
/// memory and off what the client's slot counts, and its handle is forgotten. One
/// that failed, or of an unknown handle, changes no word; one that failed forgets
/// nothing.
pub proof fn law_free_is_accounted(
    client: SchedulerClient,
    memory: Map<LocalCell, u64>,
    handle: u64,
    code: u64,
    other: LocalCell,
)
    requires
        other != LocalCell::ProcHbm(client.my_proc_idx, client.device_id),
        !(other is MemoryUsed),
    ensures
        ({
            let cell = LocalCell::ProcHbm(client.my_proc_idx, client.device_id);
            let used = LocalCell::MemoryUsed;
            let known = client.hbm_handle_map@;
            let after = crate::access::effects(memory, client.free_updates(handle, code));
            let handles = client.handles_after_free(handle, code);
            &&& code != 0 || !known.contains_key(handle) ==> after == memory
            &&& code != 0 ==> handles == known
            &&& code == 0 ==> {
                &&& !handles.contains_key(handle)
                &&& forall|q: u64|
                    q != handle ==> handles.contains_key(q) == known.contains_key(q)
                        && #[trigger] handles[q] == known[q]
            }
            &&& code == 0 && known.contains_key(handle) ==> {
                &&& memory[used] >= known[handle] ==> after[used] == memory[used] - known[handle]
                &&& memory[cell] >= known[handle] ==> after[cell] == memory[cell] - known[handle]
                &&& after[other] == memory[other]
            }
        }),
{
    let updates = client.free_updates(handle, code);
    reveal_with_fuel(crate::access::effects, 3);
    if updates.len() > 0 {
        assert(updates.drop_last() =~= seq![updates[0]]);
        assert(updates.drop_last().drop_last() =~= Seq::empty());
    }
}

/// A client's place lies within the 32 report slots, the 64 process slots and the 8
/// devices, and what it holds is counted in its own slot for its own device.
pub proof fn law_place_lies_within_segment(client: SchedulerClient)
    ensures
        client.wf() == (client.my_slot_idx < 32 && client.my_proc_idx < 64 && client.device_id < 8),
        client.hbm_cell() == LocalCell::ProcHbm(client.my_proc_idx, client.device_id),
{
}

} // verus!
