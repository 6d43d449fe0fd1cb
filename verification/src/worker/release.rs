//! Giving a process slot up.
//!
//! A client that ends leaves what its slot counts. The next recalculation takes
//! it.

use vstd::prelude::*;

use crate::access::{Access, Cell, Width};
use crate::shmem::{LocalCell, MAX_PROCESSES};
use crate::worker::client::SchedulerClient;

verus! {

impl SchedulerClient {
    /// The updates that give the client's process slot up: it has no owner and is
    /// not active.
    pub open spec fn release_updates(&self) -> Seq<Access<LocalCell>> {
        seq![
            Access::Store(LocalCell::ProcPid(self.my_proc_idx), 0),
            Access::Store(LocalCell::ProcActive(self.my_proc_idx), 0),
        ]
    }

    /// The segment once the client's process slot is given up. What the slot
    /// counts stays until a recalculation.
    pub open spec fn released(&self, memory: Map<LocalCell, u64>) -> Map<LocalCell, u64> {
        memory.insert(LocalCell::ProcPid(self.my_proc_idx), 0).insert(
            LocalCell::ProcActive(self.my_proc_idx),
            0,
        )
    }

    /// Gives the client's process slot up: returns the updates that are to be
    /// made, in order.
    pub fn release(&self) -> (updates: Vec<Access<LocalCell>>)
        ensures
            updates@ == self.release_updates(),
    {
        let mut updates: Vec<Access<LocalCell>> = Vec::new();
        updates.push(Access::Store(LocalCell::ProcPid(self.my_proc_idx), 0));
        updates.push(Access::Store(LocalCell::ProcActive(self.my_proc_idx), 0));
        updates
    }
}

/// Whatever the segment holds, a release clears the owner and the mark of the
/// client's slot and changes nothing else.
pub proof fn law_release_touches_only_slot(client: SchedulerClient, memory: Map<LocalCell, u64>)
    ensures
        crate::access::effects(memory, client.release_updates()) == client.released(memory),
{
    let updates = client.release_updates();
    reveal_with_fuel(crate::access::effects, 3);
    assert(updates.drop_last() =~= seq![updates[0]]);
    assert(updates.drop_last().drop_last() =~= Seq::empty());
}

/// A slot that has been given up can be had again.
pub proof fn law_released_process_slot_is_free(
    client: SchedulerClient,
    memory: Map<LocalCell, u64>,
)
    ensures
        crate::worker::registration::proc_free(
            client.released(memory),
            client.my_proc_idx as int,
        ),
{
}

/// A client that ends leaves nothing behind for good. After a recalculation by
/// anyone, at which its process may have ended or not, its slot holds nothing,
/// belongs to nobody and is not active. What live processes hold is found without
/// it, the counter is lower by exactly what the slot held, where a recalculation
/// had not taken that off in any case, and all else is what the recalculation
/// makes of it without the release.
pub proof fn law_released_memory_is_reclaimed(
    client: SchedulerClient,
    memory: Map<LocalCell, u64>,
    live: Set<i32>,
)
    requires
        client.wf(),
        memory[LocalCell::ProcPid(client.my_proc_idx)] != 0,
        crate::worker::usage::usage_fits(memory, live, client.device_id),
        crate::worker::usage::is_abandoned(memory, live, client.my_proc_idx as int)
            ==> memory[LocalCell::MemoryUsed] >= crate::worker::usage::abandoned_usage(
            memory,
            live,
            client.device_id,
            MAX_PROCESSES as nat,
        ),
        forall|c: LocalCell| c.valid() ==> #[trigger] memory.dom().contains(c),
    ensures
        ({
            let device = client.device_id;
            let slot = client.my_proc_idx;
            let cell = client.hbm_cell();
            let counted = crate::worker::balance::held_share(memory, live, device, slot);
            let released = client.released(memory);
            let unreleased = crate::worker::usage::reclaimed(memory, live, device);
            let after = crate::worker::usage::reclaimed(released, live, device);
            &&& crate::worker::usage::held_usage(released, live, device, MAX_PROCESSES as nat)
                == crate::worker::usage::held_usage(memory, live, device, MAX_PROCESSES as nat)
                - counted
            &&& after == unreleased.insert(LocalCell::ProcPid(slot), 0).insert(cell, 0).insert(
                LocalCell::ProcActive(slot),
                0,
            ).insert(
                LocalCell::MemoryUsed,
                (unreleased[LocalCell::MemoryUsed] - counted) as u64,
            )
            &&& unreleased[LocalCell::MemoryUsed] >= counted
        }),
{
    let device = client.device_id;
    let slot = client.my_proc_idx;
    let cell = client.hbm_cell();
    let all = MAX_PROCESSES as nat;
    let used = memory[LocalCell::MemoryUsed] as int;
    let ended = crate::worker::usage::abandoned_usage(memory, live, device, all) as int;
    let counted = crate::worker::balance::held_share(memory, live, device, slot);
    let released = client.released(memory);
    let unreleased = crate::worker::usage::reclaimed(memory, live, device);
    let after = crate::worker::usage::reclaimed(released, live, device);
    crate::worker::balance::lemma_sums_of_changed_slot(memory, released, live, device, slot, all);
    if crate::worker::usage::is_abandoned(memory, live, slot as int) {
        crate::access::lemma_fit_keeps(Width::W64, used - ended);
        crate::access::lemma_fit_keeps(Width::W64, used - ended + memory[cell]);
    }
    assert(after =~= unreleased.insert(LocalCell::ProcPid(slot), 0).insert(cell, 0).insert(
        LocalCell::ProcActive(slot),
        0,
    ).insert(LocalCell::MemoryUsed, (unreleased[LocalCell::MemoryUsed] - counted) as u64));
}

/// Where the counter is what processes hold and nobody else has left anything
/// behind, a release and a recalculation by anyone change nothing but the slot,
/// which is empty, and the counter, which is lower by exactly what the slot held.
pub proof fn law_release_costs_nobody_else(
    client: SchedulerClient,
    memory: Map<LocalCell, u64>,
    live: Set<i32>,
)
    requires
        client.wf(),
        crate::worker::usage::is_held(memory, live, client.my_proc_idx as int),
        crate::worker::balance::balanced(memory, live, client.device_id),
        forall|i: int|
            0 <= i < MAX_PROCESSES ==> !#[trigger] crate::worker::usage::is_abandoned(
                memory,
                live,
                i,
            ),
        forall|i: int|
            0 <= i < MAX_PROCESSES && #[trigger] crate::worker::usage::is_left(memory, i)
                ==> memory[LocalCell::ProcHbm(i as usize, client.device_id)] == 0,
        forall|c: LocalCell| c.valid() <==> #[trigger] memory.dom().contains(c),
    ensures
        ({
            let slot = client.my_proc_idx;
            let cell = client.hbm_cell();
            &&& memory[LocalCell::MemoryUsed] >= memory[cell]
            &&& crate::worker::usage::reclaimed(client.released(memory), live, client.device_id)
                == memory.insert(LocalCell::ProcPid(slot), 0).insert(cell, 0).insert(
                LocalCell::ProcActive(slot),
                0,
            ).insert(
                LocalCell::MemoryUsed,
                (memory[LocalCell::MemoryUsed] - memory[cell]) as u64,
            )
        }),
{
    let device = client.device_id;
    let all = MAX_PROCESSES as nat;
    crate::worker::balance::lemma_nothing_behind(memory, live, device, all);
    crate::access::lemma_fit_keeps(Width::W64, memory[LocalCell::MemoryUsed] as int);
    assert forall|c: LocalCell| #[trigger] memory.dom().contains(c) implies memory[c]
        == crate::worker::usage::reclaimed(memory, live, device)[c] by {
        assert(c.valid());
        match c {
            LocalCell::ProcPid(i) => {
                assert(!crate::worker::usage::is_abandoned(memory, live, i as int));
            },
            LocalCell::ProcActive(i) => {
                assert(!crate::worker::usage::is_abandoned(memory, live, i as int));
            },
            LocalCell::ProcHbm(i, _) => {
                assert(!crate::worker::usage::is_abandoned(memory, live, i as int));
                assert(crate::worker::usage::is_left(memory, i as int)
                    ==> memory[LocalCell::ProcHbm(i, device)] == 0);
            },
            _ => {},
        }
    }
    assert(crate::worker::usage::reclaimed(memory, live, device) =~= memory);
    law_released_memory_is_reclaimed(client, memory, live);
}

/// A release leaves the client's slot without an owner and not active. All else,
/// what the slot counts included, stays.
pub proof fn law_release_clears_owner_and_mark(
    client: SchedulerClient,
    memory: Map<LocalCell, u64>,
    other: LocalCell,
)
    requires
        other != LocalCell::ProcPid(client.my_proc_idx),
        other != LocalCell::ProcActive(client.my_proc_idx),
    ensures
        ({
            let after = crate::access::effects(memory, client.release_updates());
            &&& after[LocalCell::ProcPid(client.my_proc_idx)] == 0
            &&& after[LocalCell::ProcActive(client.my_proc_idx)] == 0
            &&& after[other] == memory[other]
        }),
{
    law_release_touches_only_slot(client, memory);
}

} // verus!
