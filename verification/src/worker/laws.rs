//! What holds of device memory accounting as a whole.

use vstd::prelude::*;

use crate::access::{Cell, Step, Width};
use crate::externed_api::RT_ERROR_NONE;
use crate::shmem::{LocalCell, MAX_PROCESSES};
use crate::worker::client::SchedulerClient;
use crate::worker::usage::{UsagePhase, UsageScan};

verus! {

/// An allocation that is reserved, made and freed leaves the segment and the
/// known allocations as they were, unless its handle was already in use.
pub proof fn law_alloc_then_free(
    before: SchedulerClient,
    holding: SchedulerClient,
    memory: Map<LocalCell, u64>,
    p: u64,
    size: u64,
)
    requires
        before.wf(),
        holding.same_place(&before),
        holding.hbm_handle_map@ == before.handles_after_alloc(p, size, RT_ERROR_NONE),
        !before.hbm_handle_map@.contains_key(p),
        forall|c: LocalCell| c.valid() ==> #[trigger] memory.dom().contains(c),
        memory[LocalCell::MemoryUsed] + size <= u64::MAX,
    ensures
        ({
            let reserved = memory.insert(
                LocalCell::MemoryUsed,
                (memory[LocalCell::MemoryUsed] + size) as u64,
            );
            let allocated = crate::access::effect(
                reserved,
                before.alloc_update(size, RT_ERROR_NONE),
            );
            crate::access::effects(allocated, holding.free_updates(p, RT_ERROR_NONE)) == memory
        }),
        holding.handles_after_free(p, RT_ERROR_NONE) == before.hbm_handle_map@,
{
    let used = memory[LocalCell::MemoryUsed];
    let held = memory[before.hbm_cell()];
    let reserved = memory.insert(LocalCell::MemoryUsed, (used + size) as u64);
    let allocated = crate::access::effect(reserved, before.alloc_update(size, RT_ERROR_NONE));
    let updates = holding.free_updates(p, RT_ERROR_NONE);
    let freed = crate::access::effects(allocated, updates);
    crate::access::law_add_then_subtract(Width::W64, used, size);
    crate::access::law_add_then_subtract(Width::W64, held, size);
    crate::access::lemma_fit_keeps(Width::W64, used + size);
    crate::access::lemma_fit_keeps(Width::W64, held as int);
    assert(memory.dom().contains(LocalCell::MemoryUsed));
    assert(before.hbm_cell().valid());
    assert(memory.dom().contains(before.hbm_cell()));
    reveal_with_fuel(crate::access::effects, 3);
    if size > 0 {
        assert(updates.drop_last() =~= seq![updates[0]]);
        assert(updates.drop_last().drop_last() =~= Seq::empty());
    }
    assert(freed =~= memory);
    assert(holding.handles_after_free(p, RT_ERROR_NONE) =~= before.hbm_handle_map@);
}

/// An allocation that is reserved and that the runtime refuses leaves the
/// segment and the known allocations as they were.
pub proof fn law_failed_alloc_gives_back(
    client: SchedulerClient,
    memory: Map<LocalCell, u64>,
    p: u64,
    size: u64,
    rts_return: u64,
)
    requires
        rts_return != RT_ERROR_NONE,
        memory.dom().contains(LocalCell::MemoryUsed),
        memory[LocalCell::MemoryUsed] + size <= u64::MAX,
    ensures
        crate::access::effect(
            memory.insert(
                LocalCell::MemoryUsed,
                (memory[LocalCell::MemoryUsed] + size) as u64,
            ),
            client.alloc_update(size, rts_return),
        ) == memory,
        client.handles_after_alloc(p, size, rts_return) == client.hbm_handle_map@,
{
    let used = memory[LocalCell::MemoryUsed];
    crate::access::lemma_fit_keeps(Width::W64, used as int);
    assert(crate::access::effect(
        memory.insert(LocalCell::MemoryUsed, (used + size) as u64),
        client.alloc_update(size, rts_return),
    ) =~= memory);
}

/// A second release of a handle changes nothing.
pub proof fn law_double_free_ignored(
    before: SchedulerClient,
    after: SchedulerClient,
    handle: u64,
    ret: u64,
)
    requires
        after.same_place(&before),
        after.hbm_handle_map@ == before.handles_after_free(handle, RT_ERROR_NONE),
    ensures
        after.free_updates(handle, ret).len() == 0,
        after.handles_after_free(handle, ret) == after.hbm_handle_map@,
{
    assert(after.handles_after_free(handle, ret) =~= after.hbm_handle_map@);
}

/// Clearing abandoned slots leaves what live processes hold, and nothing else.
pub(crate) proof fn lemma_swept_sums(memory: Map<LocalCell, u64>, live: Set<i32>, device: usize, slots: nat)
    requires
        slots <= MAX_PROCESSES,
        forall|c: LocalCell| c.valid() ==> #[trigger] memory.dom().contains(c),
        device < crate::shmem::NPU_DEVICE_MAX,
    ensures
        ({
            let after = crate::worker::usage::reclaimed(memory, live, device);
            &&& crate::worker::usage::held_usage(after, live, device, slots)
                == crate::worker::usage::held_usage(memory, live, device, slots)
            &&& crate::worker::usage::abandoned_usage(after, live, device, slots) == 0
            &&& crate::worker::usage::left_usage(after, device, slots) == 0
        }),
    decreases slots,
{
    if slots > 0 {
        lemma_swept_sums(memory, live, device, (slots - 1) as nat);
        assert(LocalCell::ProcPid((slots - 1) as usize).valid());
        assert(LocalCell::ProcActive((slots - 1) as usize).valid());
        assert(LocalCell::ProcHbm((slots - 1) as usize, device).valid());
    }
}

/// A second recalculation finds the same usage and changes nothing.
pub proof fn law_recalculation_settles(
    memory: Map<LocalCell, u64>,
    live: Set<i32>,
    device: usize,
)
    requires
        device < crate::shmem::NPU_DEVICE_MAX,
        crate::worker::usage::usage_fits(memory, live, device),
        forall|c: LocalCell| c.valid() ==> #[trigger] memory.dom().contains(c),
    ensures
        ({
            let after = crate::worker::usage::reclaimed(memory, live, device);
            &&& crate::worker::usage::reclaimed(after, live, device) == after
            &&& crate::worker::usage::held_usage(after, live, device, MAX_PROCESSES as nat)
                == crate::worker::usage::held_usage(memory, live, device, MAX_PROCESSES as nat)
        }),
{
    let after = crate::worker::usage::reclaimed(memory, live, device);
    lemma_swept_sums(memory, live, device, MAX_PROCESSES as nat);
    crate::access::lemma_fit_keeps(Width::W64, after[LocalCell::MemoryUsed] as int);
    assert forall|c: LocalCell| #[trigger] after.dom().contains(c) implies after[c]
        == crate::worker::usage::reclaimed(after, live, device)[c] by {}
    assert(crate::worker::usage::reclaimed(after, live, device) =~= after);
}

/// After a recalculation no slot belongs to a process that has ended, and none
/// that was given up still counts anything of the device.
pub proof fn law_no_abandoned_slot_left(
    memory: Map<LocalCell, u64>,
    live: Set<i32>,
    device: usize,
    slot: usize,
)
    requires
        slot < MAX_PROCESSES,
        device < crate::shmem::NPU_DEVICE_MAX,
        forall|c: LocalCell| c.valid() ==> #[trigger] memory.dom().contains(c),
    ensures
        ({
            let after = crate::worker::usage::reclaimed(memory, live, device);
            &&& !crate::worker::usage::is_abandoned(after, live, slot as int)
            &&& crate::worker::usage::is_left(after, slot as int)
                ==> after[LocalCell::ProcHbm(slot, device)] == 0
        }),
{
    assert(LocalCell::ProcPid(slot).valid());
    assert(LocalCell::ProcActive(slot).valid());
    assert(LocalCell::ProcHbm(slot, device).valid());
}

/// A recalculation touches nothing that a live process holds, nothing of other
/// devices, and no word but process slots and the counter.
pub proof fn law_recalculation_is_local(
    memory: Map<LocalCell, u64>,
    live: Set<i32>,
    device: usize,
    cell: LocalCell,
)
    requires
        memory.dom().contains(cell),
        match cell {
            LocalCell::MemoryUsed => false,
            LocalCell::ProcPid(i) => !crate::worker::usage::is_abandoned(memory, live, i as int),
            LocalCell::ProcActive(i) => !crate::worker::usage::is_abandoned(memory, live, i as int),
            LocalCell::ProcHbm(i, d) => {
                ||| d != device
                ||| !crate::worker::usage::is_abandoned(memory, live, i as int)
                    && !crate::worker::usage::is_left(memory, i as int)
            },
            _ => true,
        },
    ensures
        crate::worker::usage::reclaimed(memory, live, device)[cell] == memory[cell],
{
}

/// The counter ends up no lower than what live processes hold, and where no
/// process has left anything behind it is never lowered.
pub proof fn law_corrected_upward_only(
    memory: Map<LocalCell, u64>,
    live: Set<i32>,
    device: usize,
)
    requires
        crate::worker::usage::usage_fits(memory, live, device),
    ensures
        crate::worker::usage::corrected_used(memory, live, device)
            >= crate::worker::usage::held_usage(memory, live, device, MAX_PROCESSES as nat),
        crate::worker::usage::abandoned_usage(memory, live, device, MAX_PROCESSES as nat) == 0
            && crate::worker::usage::left_usage(memory, device, MAX_PROCESSES as nat) == 0
            ==> crate::worker::usage::corrected_used(memory, live, device)
            >= memory[LocalCell::MemoryUsed],
{
    crate::access::lemma_fit_keeps(Width::W64, memory[LocalCell::MemoryUsed] as int);
}

/// What is given back for slots that were given up never exceeds what the counter
/// holds, whatever the counter holds when it is lowered.
pub proof fn law_counter_is_not_overdrawn(
    scan: UsageScan,
    seen: u64,
    memory: Map<LocalCell, u64>,
)
    requires
        scan.phase == UsagePhase::Lower(seen),
    ensures
        ({
            let used = memory[LocalCell::MemoryUsed];
            scan.asks() matches Step::Do(action) && crate::worker::lone_effect(
                memory,
                action,
            )[LocalCell::MemoryUsed] == if used == seen {
                crate::worker::client::monus(used as int, scan.left as int)
            } else {
                used as int
            }
        }),
{
    crate::access::lemma_fit_keeps(Width::W64, seen as int);
    crate::access::lemma_fit_keeps(
        Width::W64,
        crate::worker::client::monus(seen as int, scan.left as int),
    );
}

/// Without a limit every request is granted and nothing is counted. This is how
/// a stub, whose segment holds zeros, switches the limits off.
pub proof fn law_no_limit_grants_all(
    memory: Map<LocalCell, u64>,
    live: Set<i32>,
    device: usize,
    size: u64,
)
    requires
        memory[LocalCell::MemoryLimit] == 0,
    ensures
        crate::worker::quota::request_fits(memory, live, device, size),
        crate::worker::quota::is_granted(memory, live, device, size),
        crate::worker::quota::requested(memory, live, device, size) == memory,
{
}

/// A granted request leaves the counter within the limit; a refused one changes
/// nothing that a recalculation would not.
pub proof fn law_limit_is_kept(
    memory: Map<LocalCell, u64>,
    live: Set<i32>,
    device: usize,
    size: u64,
)
    requires
        memory[LocalCell::MemoryLimit] != 0,
        crate::worker::quota::request_fits(memory, live, device, size),
    ensures
        ({
            let after = crate::worker::quota::requested(memory, live, device, size);
            let corrected = crate::worker::usage::reclaimed(memory, live, device);
            if crate::worker::quota::is_granted(memory, live, device, size) {
                &&& after[LocalCell::MemoryUsed] <= memory[LocalCell::MemoryLimit]
                &&& after[LocalCell::MemoryUsed] == corrected[LocalCell::MemoryUsed] + size
            } else {
                after == corrected
            }
        }),
{
}

/// Whatever a worker does with device memory, the limit stays as the manager has
/// set it.
pub proof fn law_limit_is_never_changed(
    client: SchedulerClient,
    memory: Map<LocalCell, u64>,
    live: Set<i32>,
    device: usize,
    size: u64,
    handle: u64,
    ret: u64,
)
    ensures
        ({
            let cell = LocalCell::MemoryLimit;
            let limit = memory[cell];
            &&& memory.dom().contains(cell) ==> {
                &&& crate::worker::usage::reclaimed(memory, live, device)[cell] == limit
                &&& crate::worker::quota::requested(memory, live, device, size)[cell] == limit
                &&& crate::hook::malloc_memory(&client, memory, live, size, ret)[cell] == limit
            }
            &&& crate::hook::free_memory(&client, memory, handle, ret)[cell] == limit
            &&& client.released(memory)[cell] == limit
        }),
{
    let updates = client.free_updates(handle, ret);
    reveal_with_fuel(crate::access::effects, 3);
    if updates.len() > 0 {
        assert(updates.drop_last() =~= seq![updates[0]]);
        assert(updates.drop_last().drop_last() =~= Seq::empty());
    }
}

} // verus!
