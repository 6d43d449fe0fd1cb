//! The counter of used memory and the slots of processes agree.
//!
//! The counter is kept for a container and the slots for each of its devices, so
//! that what is said here is said of a container that uses one device.

use vstd::prelude::*;

use crate::access::{Cell, Width};
use crate::externed_api::RT_ERROR_NONE;
use crate::shmem::{LocalCell, MAX_PROCESSES, NPU_DEVICE_MAX};
use crate::worker::client::SchedulerClient;

verus! {

/// Whether the counter is what processes hold of a device, or have left behind.
pub open spec fn balanced(memory: Map<LocalCell, u64>, live: Set<i32>, device: usize) -> bool {
    let all = MAX_PROCESSES as nat;
    memory[LocalCell::MemoryUsed] == crate::worker::usage::held_usage(memory, live, device, all)
        + crate::worker::usage::abandoned_usage(memory, live, device, all)
        + crate::worker::usage::left_usage(memory, device, all)
}

/// What a slot adds to what live processes hold.
pub open spec fn held_share(
    memory: Map<LocalCell, u64>,
    live: Set<i32>,
    device: usize,
    slot: usize,
) -> int {
    if crate::worker::usage::is_held(memory, live, slot as int) {
        memory[LocalCell::ProcHbm(slot, device)] as int
    } else {
        0
    }
}

/// What a slot adds to what ended processes held.
pub open spec fn abandoned_share(
    memory: Map<LocalCell, u64>,
    live: Set<i32>,
    device: usize,
    slot: usize,
) -> int {
    if crate::worker::usage::is_abandoned(memory, live, slot as int) {
        memory[LocalCell::ProcHbm(slot, device)] as int
    } else {
        0
    }
}

/// What a slot adds to what was left in slots that were given up.
pub open spec fn left_share(memory: Map<LocalCell, u64>, device: usize, slot: usize) -> int {
    if crate::worker::usage::is_left(memory, slot as int) {
        memory[LocalCell::ProcHbm(slot, device)] as int
    } else {
        0
    }
}

/// Whether two segments agree on a slot, as far as a device goes.
pub open spec fn same_slot(
    memory: Map<LocalCell, u64>,
    other: Map<LocalCell, u64>,
    device: usize,
    slot: usize,
) -> bool {
    &&& memory[LocalCell::ProcPid(slot)] == other[LocalCell::ProcPid(slot)]
    &&& memory[LocalCell::ProcActive(slot)] == other[LocalCell::ProcActive(slot)]
    &&& memory[LocalCell::ProcHbm(slot, device)] == other[LocalCell::ProcHbm(slot, device)]
}

proof fn lemma_sums_agree(
    memory: Map<LocalCell, u64>,
    other: Map<LocalCell, u64>,
    live: Set<i32>,
    device: usize,
    slots: nat,
)
    requires
        slots <= MAX_PROCESSES,
        forall|i: usize| i < slots ==> #[trigger] same_slot(memory, other, device, i),
    ensures
        crate::worker::usage::held_usage(memory, live, device, slots)
            == crate::worker::usage::held_usage(other, live, device, slots),
        crate::worker::usage::abandoned_usage(memory, live, device, slots)
            == crate::worker::usage::abandoned_usage(other, live, device, slots),
        crate::worker::usage::left_usage(memory, device, slots)
            == crate::worker::usage::left_usage(other, device, slots),
    decreases slots,
{
    if slots > 0 {
        lemma_sums_agree(memory, other, live, device, (slots - 1) as nat);
        assert(same_slot(memory, other, device, (slots - 1) as usize));
    }
}

/// Where only one slot changes, the sums change by what it adds to them.
pub(crate) proof fn lemma_sums_of_changed_slot(
    memory: Map<LocalCell, u64>,
    after: Map<LocalCell, u64>,
    live: Set<i32>,
    device: usize,
    slot: usize,
    slots: nat,
)
    requires
        slot < slots <= MAX_PROCESSES,
        forall|i: usize|
            i < slots && i != slot ==> #[trigger] same_slot(memory, after, device, i),
    ensures
        crate::worker::usage::held_usage(after, live, device, slots)
            == crate::worker::usage::held_usage(memory, live, device, slots) - held_share(
            memory,
            live,
            device,
            slot,
        ) + held_share(after, live, device, slot),
        crate::worker::usage::abandoned_usage(after, live, device, slots)
            == crate::worker::usage::abandoned_usage(memory, live, device, slots)
            - abandoned_share(memory, live, device, slot) + abandoned_share(
            after,
            live,
            device,
            slot,
        ),
        crate::worker::usage::left_usage(after, device, slots) == crate::worker::usage::left_usage(
            memory,
            device,
            slots,
        ) - left_share(memory, device, slot) + left_share(after, device, slot),
        held_share(memory, live, device, slot) <= crate::worker::usage::held_usage(
            memory,
            live,
            device,
            slots,
        ),
        abandoned_share(memory, live, device, slot) <= crate::worker::usage::abandoned_usage(
            memory,
            live,
            device,
            slots,
        ),
    decreases slots,
{
    if slot == slots - 1 {
        assert forall|i: usize| i < slot implies #[trigger] same_slot(memory, after, device, i) by {
        }
        lemma_sums_agree(memory, after, live, device, slot as nat);
    } else {
        lemma_sums_of_changed_slot(memory, after, live, device, slot, (slots - 1) as nat);
        assert(same_slot(memory, after, device, (slots - 1) as usize));
    }
}

/// Where no slot is abandoned, and those that were given up are empty, nothing has
/// been left behind.
pub(crate) proof fn lemma_nothing_behind(
    memory: Map<LocalCell, u64>,
    live: Set<i32>,
    device: usize,
    slots: nat,
)
    requires
        slots <= MAX_PROCESSES,
        forall|i: int|
            0 <= i < MAX_PROCESSES ==> !#[trigger] crate::worker::usage::is_abandoned(
                memory,
                live,
                i,
            ),
        forall|i: int|
            0 <= i < MAX_PROCESSES && #[trigger] crate::worker::usage::is_left(memory, i)
                ==> memory[LocalCell::ProcHbm(i as usize, device)] == 0,
    ensures
        crate::worker::usage::abandoned_usage(memory, live, device, slots) == 0,
        crate::worker::usage::left_usage(memory, device, slots) == 0,
    decreases slots,
{
    if slots > 0 {
        lemma_nothing_behind(memory, live, device, (slots - 1) as nat);
    }
}

/// A segment in which nothing is held is balanced.
pub proof fn law_new_segment_is_balanced(
    memory: Map<LocalCell, u64>,
    live: Set<i32>,
    device: usize,
)
    requires
        memory[LocalCell::MemoryUsed] == 0,
        forall|i: usize|
            i < MAX_PROCESSES ==> #[trigger] memory[LocalCell::ProcHbm(i, device)] == 0,
    ensures
        balanced(memory, live, device),
{
    lemma_nothing_held(memory, live, device, MAX_PROCESSES as nat);
}

proof fn lemma_nothing_held(
    memory: Map<LocalCell, u64>,
    live: Set<i32>,
    device: usize,
    slots: nat,
)
    requires
        slots <= MAX_PROCESSES,
        forall|i: usize|
            i < MAX_PROCESSES ==> #[trigger] memory[LocalCell::ProcHbm(i, device)] == 0,
    ensures
        crate::worker::usage::held_usage(memory, live, device, slots) == 0,
        crate::worker::usage::abandoned_usage(memory, live, device, slots) == 0,
        crate::worker::usage::left_usage(memory, device, slots) == 0,
    decreases slots,
{
    if slots > 0 {
        lemma_nothing_held(memory, live, device, (slots - 1) as nat);
    }
}

/// A recalculation keeps a segment balanced: the counter ends up at what live
/// processes hold.
pub proof fn law_recalculation_keeps_balance(
    memory: Map<LocalCell, u64>,
    live: Set<i32>,
    device: usize,
)
    requires
        device < NPU_DEVICE_MAX,
        balanced(memory, live, device),
        forall|c: LocalCell| c.valid() ==> #[trigger] memory.dom().contains(c),
    ensures
        ({
            let after = crate::worker::usage::reclaimed(memory, live, device);
            &&& balanced(after, live, device)
            &&& after[LocalCell::MemoryUsed] == crate::worker::usage::held_usage(
                memory,
                live,
                device,
                MAX_PROCESSES as nat,
            )
        }),
{
    let all = MAX_PROCESSES as nat;
    let held = crate::worker::usage::held_usage(memory, live, device, all);
    let left = crate::worker::usage::left_usage(memory, device, all);
    crate::worker::laws::lemma_swept_sums(memory, live, device, all);
    crate::access::lemma_fit_keeps(Width::W64, (held + left) as int);
}

/// An allocation keeps a segment balanced, whether it is granted or refused and
/// whatever the runtime says.
pub proof fn law_malloc_keeps_balance(
    client: &SchedulerClient,
    memory: Map<LocalCell, u64>,
    live: Set<i32>,
    size: u64,
    ret: u64,
)
    requires
        client.wf(),
        memory[LocalCell::MemoryLimit] != 0,
        crate::worker::quota::request_fits(memory, live, client.device_id, size),
        forall|c: LocalCell| c.valid() ==> #[trigger] memory.dom().contains(c),
        crate::worker::usage::is_held(memory, live, client.my_proc_idx as int),
        balanced(memory, live, client.device_id),
    ensures
        balanced(
            crate::hook::malloc_memory(client, memory, live, size, ret),
            live,
            client.device_id,
        ),
{
    let device = client.device_id;
    let slot = client.my_proc_idx;
    let corrected = crate::worker::usage::reclaimed(memory, live, device);
    let after = crate::hook::malloc_memory(client, memory, live, size, ret);
    law_recalculation_keeps_balance(memory, live, device);
    assert(LocalCell::ProcPid(slot).valid());
    assert(crate::worker::usage::is_held(corrected, live, slot as int));
    if ret != RT_ERROR_NONE {
        assert(LocalCell::MemoryUsed.valid());
        crate::hook::law_failed_malloc_leaves_no_trace(client, memory, live, size, ret);
    } else if crate::hook::is_admitted(memory, live, device, size) {
        let cell = client.hbm_cell();
        lemma_sums_of_changed_slot(corrected, after, live, device, slot, MAX_PROCESSES as nat);
        crate::access::lemma_fit_keeps(Width::W64, corrected[cell] + size);
    }
}

/// A release keeps a segment balanced, as long as the client's slot holds what
/// the handle stands for.
pub proof fn law_free_keeps_balance(
    client: &SchedulerClient,
    memory: Map<LocalCell, u64>,
    live: Set<i32>,
    handle: u64,
    ret: u64,
)
    requires
        client.wf(),
        crate::worker::usage::is_held(memory, live, client.my_proc_idx as int),
        balanced(memory, live, client.device_id),
        client.hbm_handle_map@.contains_key(handle) ==> client.hbm_handle_map@[handle]
            <= memory[client.hbm_cell()],
    ensures
        balanced(crate::hook::free_memory(client, memory, handle, ret), live, client.device_id),
{
    let device = client.device_id;
    let slot = client.my_proc_idx;
    let cell = client.hbm_cell();
    let updates = client.free_updates(handle, ret);
    let after = crate::hook::free_memory(client, memory, handle, ret);
    reveal_with_fuel(crate::access::effects, 3);
    if memory[LocalCell::MemoryLimit] > 0 && updates.len() > 0 {
        let size = client.hbm_handle_map@[handle];
        assert(updates.drop_last() =~= seq![updates[0]]);
        assert(updates.drop_last().drop_last() =~= Seq::empty());
        lemma_sums_of_changed_slot(memory, after, live, device, slot, MAX_PROCESSES as nat);
        crate::access::lemma_fit_keeps(Width::W64, memory[LocalCell::MemoryUsed] - size);
        crate::access::lemma_fit_keeps(Width::W64, memory[cell] - size);
    }
}

/// A client that ends keeps a segment balanced: what its slot counts is left
/// behind. The slot has an owner, or was given up before.
pub proof fn law_release_keeps_balance(
    client: &SchedulerClient,
    memory: Map<LocalCell, u64>,
    live: Set<i32>,
)
    requires
        client.wf(),
        memory[LocalCell::ProcPid(client.my_proc_idx)] != 0
            || memory[LocalCell::ProcActive(client.my_proc_idx)] == 0,
        balanced(memory, live, client.device_id),
    ensures
        balanced(client.released(memory), live, client.device_id),
{
    lemma_sums_of_changed_slot(
        memory,
        client.released(memory),
        live,
        client.device_id,
        client.my_proc_idx,
        MAX_PROCESSES as nat,
    );
}

/// A process that registers keeps a segment balanced, unless something was left
/// in the slot that it gets.
pub proof fn law_registration_keeps_balance(
    memory: Map<LocalCell, u64>,
    live: Set<i32>,
    device: usize,
    pid: i32,
    slot: usize,
)
    requires
        device < NPU_DEVICE_MAX,
        slot < MAX_PROCESSES,
        memory[LocalCell::ProcHbm(slot, device)] == 0,
        balanced(memory, live, device),
        forall|c: LocalCell| c.valid() ==> #[trigger] memory.dom().contains(c),
    ensures
        balanced(
            crate::worker::registration::proc_registered(memory, pid, Some(slot)),
            live,
            device,
        ),
{
    let after = crate::worker::registration::proc_registered(memory, pid, Some(slot));
    assert forall|i: usize| i < MAX_PROCESSES && i != slot implies #[trigger] same_slot(
        memory,
        after,
        device,
        i,
    ) by {
        assert(LocalCell::ProcPid(i).valid());
        assert(LocalCell::ProcActive(i).valid());
        assert(LocalCell::ProcHbm(i, device).valid());
    }
    assert(LocalCell::ProcHbm(slot, device).valid());
    assert(LocalCell::MemoryUsed.valid());
    lemma_sums_of_changed_slot(memory, after, live, device, slot, MAX_PROCESSES as nat);
}

} // verus!
