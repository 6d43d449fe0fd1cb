//! A manager's place in the global registry.

use vstd::prelude::*;

use crate::access::{Access, Cell, Step, Width};
use crate::manager::{ManagerAction, DEFAULT_AVG_US, MB_TO_BYTES};
use crate::shmem::{
    encode_pid, GlobalCell, GlobalRegistry, LocalCell, LocalContainerShmem, MAX_MANAGERS,
};

verus! {

/// A container's manager.
#[derive(Debug, Clone, Copy, PartialEq, Eq, Structural)]
pub struct ContainerManager {
    pub my_pid: i32,
    /// The manager's slot in the global registry.
    pub my_global_idx: usize,
    /// Microseconds that a kernel of the container takes on average.
    pub current_avg_us: u64,
    /// Whether the container's share is fixed by its priority alone.
    pub fixed_share_ratio: bool,
    /// Nanoseconds of the monotonic clock before which no batch may start.
    pub next_run_not_before: Option<u128>,
}

impl ContainerManager {
    /// Whether the manager's slot lies within the registry.
    pub open spec fn wf(&self) -> bool {
        self.my_global_idx < MAX_MANAGERS
    }

    /// A manager that holds a slot.
    pub fn with_slot(my_global_idx: usize, pid: i32, fixed_share_ratio: bool) -> (manager:
        ContainerManager)
        requires
            my_global_idx < MAX_MANAGERS,
        ensures
            manager.wf(),
            manager == (ContainerManager {
                my_pid: pid,
                my_global_idx,
                current_avg_us: DEFAULT_AVG_US,
                fixed_share_ratio,
                next_run_not_before: None,
            }),
            manager == ContainerManager::fresh(my_global_idx, pid, fixed_share_ratio),
    {
        ContainerManager {
            my_pid: pid,
            my_global_idx,
            current_avg_us: DEFAULT_AVG_US,
            fixed_share_ratio,
            next_run_not_before: None,
        }
    }

    /// What a new manager publishes: its priority to other managers, then the
    /// limits of the container to its workers.
    pub fn publish(&self, priority: u64, memory_limit_mb: u64) -> (actions: Vec<ManagerAction>)
        requires
            memory_limit_mb * MB_TO_BYTES <= u64::MAX,
        ensures
            actions@ == seq![
                ManagerAction::Global(
                    Access::Store(GlobalCell::SlotPriority(self.my_global_idx), priority),
                ),
                ManagerAction::Local(
                    Access::Store(
                        LocalCell::MemoryLimit,
                        (memory_limit_mb * MB_TO_BYTES) as u64,
                    ),
                ),
                ManagerAction::Local(Access::Store(LocalCell::MemoryUsed, 0)),
                ManagerAction::Local(Access::Store(LocalCell::ComputePriority, priority)),
            ],
            actions@ == self.publications(priority, memory_limit_mb),
    {
        let mut actions: Vec<ManagerAction> = Vec::new();
        actions.push(
            ManagerAction::Global(
                Access::Store(GlobalCell::SlotPriority(self.my_global_idx), priority),
            ),
        );
        actions.push(
            ManagerAction::Local(
                Access::Store(LocalCell::MemoryLimit, memory_limit_mb * MB_TO_BYTES),
            ),
        );
        actions.push(ManagerAction::Local(Access::Store(LocalCell::MemoryUsed, 0)));
        actions.push(ManagerAction::Local(Access::Store(LocalCell::ComputePriority, priority)));
        actions
    }

    /// What a manager that ends does: others skip its slot, and those who wait
    /// look again.
    pub fn release(&self) -> (actions: Vec<ManagerAction>)
        ensures
            actions@ == seq![
                ManagerAction::Global(Access::Store(GlobalCell::SlotActive(self.my_global_idx), 0)),
                ManagerAction::Global(Access::FetchAdd(GlobalCell::SignalCounter, 1)),
                ManagerAction::WakeGlobal,
            ],
            actions@ == self.release_actions(),
    {
        let mut actions: Vec<ManagerAction> = Vec::new();
        actions.push(
            ManagerAction::Global(Access::Store(GlobalCell::SlotActive(self.my_global_idx), 0)),
        );
        actions.push(ManagerAction::Global(Access::FetchAdd(GlobalCell::SignalCounter, 1)));
        actions.push(ManagerAction::WakeGlobal);
        actions
    }
}

/// Where a [`GlobalRegistration`] stands.
#[derive(Debug, Clone, Copy, PartialEq, Eq, Structural)]
pub enum GlobalRegPhase {
    Claim,
    StorePid,
    StoreAvg,
    ReadClock,
    StoreBeat(u64),
    Registered,
    Full,
}

/// Finds a slot in the global registry.
#[derive(Debug, Clone, Copy, PartialEq, Eq, Structural)]
pub struct GlobalRegistration {
    pub pid: i32,
    pub index: usize,
    pub phase: GlobalRegPhase,
}

impl GlobalRegistration {
    /// A registration that has not looked at any slot.
    pub open spec fn initial(pid: i32) -> GlobalRegistration {
        GlobalRegistration { pid, index: 0, phase: GlobalRegPhase::Claim }
    }

    /// The registration in another phase.
    pub open spec fn at(self, phase: GlobalRegPhase) -> GlobalRegistration {
        GlobalRegistration { phase, ..self }
    }

    /// What the registration asks for. It ends with a slot, or with `None` when
    /// all are taken.
    pub open spec fn asks(self) -> Step<ManagerAction, Option<usize>> {
        let i = self.index;
        match self.phase {
            GlobalRegPhase::Claim => Step::Do(
                ManagerAction::Global(Access::CompareExchange(GlobalCell::SlotActive(i), 0, 1)),
            ),
            GlobalRegPhase::StorePid => Step::Do(
                ManagerAction::Global(
                    Access::Store(GlobalCell::SlotPid(i), crate::shmem::pid_word(self.pid)),
                ),
            ),
            GlobalRegPhase::StoreAvg => Step::Do(
                ManagerAction::Global(Access::Store(GlobalCell::SlotAvg(i), DEFAULT_AVG_US)),
            ),
            GlobalRegPhase::ReadClock => Step::Do(ManagerAction::WallClock),
            GlobalRegPhase::StoreBeat(now) => Step::Do(
                ManagerAction::Global(Access::Store(GlobalCell::SlotHeartbeat(i), now)),
            ),
            GlobalRegPhase::Registered => Step::Done(Some(i)),
            GlobalRegPhase::Full => Step::Done(None),
        }
    }

    /// The registration once it has the reply to what it asked.
    pub open spec fn next(self, reply: u64) -> GlobalRegistration {
        match self.phase {
            GlobalRegPhase::Claim => if reply == 0 {
                self.at(GlobalRegPhase::StorePid)
            } else if self.index + 1 < MAX_MANAGERS {
                GlobalRegistration { index: (self.index + 1) as usize, ..self }
            } else {
                self.at(GlobalRegPhase::Full)
            },
            GlobalRegPhase::StorePid => self.at(GlobalRegPhase::StoreAvg),
            GlobalRegPhase::StoreAvg => self.at(GlobalRegPhase::ReadClock),
            GlobalRegPhase::ReadClock => self.at(GlobalRegPhase::StoreBeat(reply)),
            GlobalRegPhase::StoreBeat(_) => self.at(GlobalRegPhase::Registered),
            GlobalRegPhase::Registered => self,
            GlobalRegPhase::Full => self,
        }
    }

    /// Starts a registration.
    pub fn start(pid: i32) -> (registration: GlobalRegistration)
        ensures
            registration == GlobalRegistration::initial(pid),
    {
        GlobalRegistration { pid, index: 0, phase: GlobalRegPhase::Claim }
    }

    /// Tells what to do next.
    pub fn step(&self) -> (step: Step<ManagerAction, Option<usize>>)
        ensures
            step == self.asks(),
    {
        let i: usize = self.index;
        let access = match self.phase {
            GlobalRegPhase::Claim => Access::CompareExchange(GlobalCell::SlotActive(i), 0, 1),
            GlobalRegPhase::StorePid => Access::Store(GlobalCell::SlotPid(i), encode_pid(self.pid)),
            GlobalRegPhase::StoreAvg => Access::Store(GlobalCell::SlotAvg(i), DEFAULT_AVG_US),
            GlobalRegPhase::ReadClock => {
                return Step::Do(ManagerAction::WallClock);
            },
            GlobalRegPhase::StoreBeat(now) => Access::Store(GlobalCell::SlotHeartbeat(i), now),
            GlobalRegPhase::Registered => {
                return Step::Done(Some(i));
            },
            GlobalRegPhase::Full => {
                return Step::Done(None);
            },
        };
        Step::Do(ManagerAction::Global(access))
    }

    /// Takes the reply to what was asked.
    pub fn advance(&mut self, reply: u64)
        ensures
            *final(self) == old(self).next(reply),
    {
        match self.phase {
            GlobalRegPhase::Claim => {
                if reply == 0 {
                    self.phase = GlobalRegPhase::StorePid;
                } else if self.index < MAX_MANAGERS - 1 {
                    self.index = self.index + 1;
                } else {
                    self.phase = GlobalRegPhase::Full;
                }
            },
            GlobalRegPhase::StorePid => {
                self.phase = GlobalRegPhase::StoreAvg;
            },
            GlobalRegPhase::StoreAvg => {
                self.phase = GlobalRegPhase::ReadClock;
            },
            GlobalRegPhase::ReadClock => {
                self.phase = GlobalRegPhase::StoreBeat(reply);
            },
            GlobalRegPhase::StoreBeat(_) => {
                self.phase = GlobalRegPhase::Registered;
            },
            GlobalRegPhase::Registered => {},
            GlobalRegPhase::Full => {},
        }
    }
}

/// Whether a slot of the registry is free.
pub open spec fn manager_free(registry: Map<GlobalCell, u64>, slot: int) -> bool {
    registry[GlobalCell::SlotActive(slot as usize)] == 0
}

/// Which slot a manager gets: the first that is free, else none.
pub open spec fn manager_slot(registry: Map<GlobalCell, u64>, slot: Option<usize>) -> bool {
    match slot {
        Some(i) => {
            &&& i < MAX_MANAGERS
            &&& manager_free(registry, i as int)
            &&& forall|j: int| 0 <= j < i ==> !manager_free(registry, j)
        },
        None => forall|j: int| 0 <= j < MAX_MANAGERS ==> !manager_free(registry, j),
    }
}

/// The registry once a manager has got a slot at a time.
pub open spec fn manager_registered(
    registry: Map<GlobalCell, u64>,
    pid: i32,
    now: u64,
    slot: Option<usize>,
) -> Map<GlobalCell, u64> {
    match slot {
        None => registry,
        Some(i) => registry.insert(GlobalCell::SlotActive(i), 1).insert(
            GlobalCell::SlotPid(i),
            crate::shmem::pid_word(pid),
        ).insert(GlobalCell::SlotAvg(i), DEFAULT_AVG_US).insert(GlobalCell::SlotHeartbeat(i), now),
    }
}

impl GlobalRegistration {
    spec fn runs(
        self,
        start: Map<GlobalCell, u64>,
        registry: Map<GlobalCell, u64>,
        now: u64,
    ) -> bool {
        let i = self.index;
        let claimed = start.insert(GlobalCell::SlotActive(i), 1);
        let owned = claimed.insert(GlobalCell::SlotPid(i), crate::shmem::pid_word(self.pid));
        let seeded = owned.insert(GlobalCell::SlotAvg(i), DEFAULT_AVG_US);
        &&& i < MAX_MANAGERS
        &&& match self.phase {
            GlobalRegPhase::Claim => {
                &&& registry == start
                &&& forall|j: int| 0 <= j < i ==> !manager_free(start, j)
            },
            GlobalRegPhase::StorePid => manager_slot(start, Some(i)) && registry == claimed,
            GlobalRegPhase::StoreAvg => manager_slot(start, Some(i)) && registry == owned,
            GlobalRegPhase::ReadClock => manager_slot(start, Some(i)) && registry == seeded,
            GlobalRegPhase::StoreBeat(time) => {
                &&& manager_slot(start, Some(i))
                &&& registry == seeded
                &&& time == now
            },
            GlobalRegPhase::Registered => {
                &&& manager_slot(start, Some(i))
                &&& registry == manager_registered(start, self.pid, now, Some(i))
            },
            GlobalRegPhase::Full => manager_slot(start, None) && registry == start,
        }
    }

    spec fn remaining(self) -> int {
        match self.phase {
            GlobalRegPhase::Claim => 10 + (MAX_MANAGERS - self.index),
            GlobalRegPhase::StorePid => 4,
            GlobalRegPhase::StoreAvg => 3,
            GlobalRegPhase::ReadClock => 2,
            GlobalRegPhase::StoreBeat(_) => 1,
            _ => 0,
        }
    }
}

proof fn lemma_registration_turn(
    registration: GlobalRegistration,
    start: Map<GlobalCell, u64>,
    registry: Map<GlobalCell, u64>,
    now: u64,
)
    requires
        registration.runs(start, registry, now),
        registration.asks() is Do,
        forall|c: GlobalCell| c.valid() <==> #[trigger] start.dom().contains(c),
    ensures
        ({
            let action = registration.asks()->Do_0;
            let after = registration.next(crate::manager::lone_reply(registry, now, action));
            &&& action matches ManagerAction::Global(access) ==> access.cell().valid()
            &&& action is Global || action is WallClock
            &&& after.runs(start, crate::manager::lone_effect(registry, action), now)
            &&& after.pid == registration.pid
            &&& 0 <= after.remaining() < registration.remaining()
        }),
{
    let action = registration.asks()->Do_0;
    let reply = crate::manager::lone_reply(registry, now, action);
    let changed = crate::manager::lone_effect(registry, action);
    let i = registration.index;
    crate::shmem::law_pid_round_trip(registration.pid, 0);
    crate::access::lemma_fit_keeps(Width::W32, crate::shmem::pid_word(registration.pid) as int);
    crate::access::lemma_fit_keeps(Width::W64, DEFAULT_AVG_US as int);
    crate::access::lemma_fit_keeps(Width::W64, now as int);
    if registration.phase is Claim {
        if reply == 0 {
            assert(manager_free(start, i as int));
        } else {
            assert(changed =~= registry);
        }
    }
}

impl ContainerManager {
    /// Finds a slot for a manager at a time, in a registry that is held alone.
    pub fn register_global_slot(registry: &mut GlobalRegistry, pid: i32, now: u64) -> (slot: Option<
        usize,
    >)
        ensures
            manager_slot(old(registry)@, slot),
            final(registry)@ == manager_registered(old(registry)@, pid, now, slot),
    {
        let ghost before = registry@;
        let mut registration = GlobalRegistration::start(pid);
        loop
            invariant
                before == old(registry)@,
                registration.pid == pid,
                forall|c: GlobalCell| c.valid() <==> #[trigger] before.dom().contains(c),
                registration.runs(before, registry@, now),
            decreases registration.remaining(),
        {
            proof {
                if registration.asks() is Do {
                    lemma_registration_turn(registration, before, registry@, now);
                }
            }
            match registration.step() {
                Step::Do(ManagerAction::Global(access)) => {
                    let reply: u64 = registry.perform(access);
                    registration.advance(reply);
                },
                Step::Do(ManagerAction::WallClock) => {
                    registration.advance(now);
                },
                Step::Done(slot) => {
                    return slot;
                },
                _ => {
                    assert(false);
                    return None;
                },
            }
        }
    }
}

/// The segment of a container once its limits are published.
pub open spec fn limits_published(
    memory: Map<LocalCell, u64>,
    priority: u64,
    memory_limit_mb: u64,
) -> Map<LocalCell, u64> {
    memory.insert(LocalCell::MemoryLimit, (memory_limit_mb * MB_TO_BYTES) as u64).insert(
        LocalCell::MemoryUsed,
        0,
    ).insert(LocalCell::ComputePriority, priority)
}

impl ContainerManager {
    /// Registers a manager at a time and publishes its priority and the limits of
    /// its container, in segments that are held alone. Without a free slot there
    /// is no manager, and nothing changes.
    pub fn new(
        registry: &mut GlobalRegistry,
        shmem: &mut LocalContainerShmem,
        pid: i32,
        priority: u64,
        memory_limit_mb: u64,
        fixed_share_ratio: bool,
        now: u64,
    ) -> (manager: Option<ContainerManager>)
        requires
            memory_limit_mb * MB_TO_BYTES <= u64::MAX,
        ensures
            match manager {
                Some(m) => {
                    let slot = m.my_global_idx;
                    &&& manager_slot(old(registry)@, Some(slot))
                    &&& m == ContainerManager::fresh(slot, pid, fixed_share_ratio)
                    &&& m == (ContainerManager {
                        my_pid: pid,
                        my_global_idx: slot,
                        current_avg_us: DEFAULT_AVG_US,
                        fixed_share_ratio,
                        next_run_not_before: None,
                    })
                    &&& final(registry)@ == manager_registered(
                        old(registry)@,
                        pid,
                        now,
                        Some(slot),
                    ).insert(GlobalCell::SlotPriority(slot), priority)
                    &&& final(shmem)@ == limits_published(old(shmem)@, priority, memory_limit_mb)
                },
                None => {
                    &&& manager_slot(old(registry)@, None)
                    &&& final(registry)@ == old(registry)@
                    &&& final(shmem)@ == old(shmem)@
                },
            },
    {
        let ghost segment = shmem@;
        let slot = match ContainerManager::register_global_slot(registry, pid, now) {
            Some(slot) => slot,
            None => {
                return None;
            },
        };
        let ghost registered = registry@;
        let manager = ContainerManager::with_slot(slot, pid, fixed_share_ratio);
        let actions = manager.publish(priority, memory_limit_mb);
        let ghost bytes = (memory_limit_mb * MB_TO_BYTES) as u64;
        let ghost limited = segment.insert(LocalCell::MemoryLimit, bytes);
        let ghost emptied = limited.insert(LocalCell::MemoryUsed, 0);
        let mut done: usize = 0;
        while done < actions.len()
            invariant
                slot < MAX_MANAGERS,
                actions@ == seq![
                    ManagerAction::Global(Access::Store(GlobalCell::SlotPriority(slot), priority)),
                    ManagerAction::Local(Access::Store(LocalCell::MemoryLimit, bytes)),
                    ManagerAction::Local(Access::Store(LocalCell::MemoryUsed, 0)),
                    ManagerAction::Local(Access::Store(LocalCell::ComputePriority, priority)),
                ],
                limited == segment.insert(LocalCell::MemoryLimit, bytes),
                emptied == limited.insert(LocalCell::MemoryUsed, 0),
                done <= actions.len(),
                registry@ == if done == 0 {
                    registered
                } else {
                    registered.insert(GlobalCell::SlotPriority(slot), priority)
                },
                shmem@ == if done <= 1 {
                    segment
                } else if done == 2 {
                    limited
                } else if done == 3 {
                    emptied
                } else {
                    emptied.insert(LocalCell::ComputePriority, priority)
                },
            decreases actions.len() - done,
        {
            proof {
                crate::access::lemma_fit_keeps(Width::W64, priority as int);
                crate::access::lemma_fit_keeps(Width::W64, bytes as int);
            }
            match actions[done] {
                ManagerAction::Global(access) => {
                    registry.perform(access);
                },
                ManagerAction::Local(access) => {
                    shmem.perform(access);
                },
                _ => {},
            }
            done = done + 1;
        }
        Some(manager)
    }
}

/// A slot that has just been given to a manager is not given out again.
pub proof fn law_manager_slot_is_exclusive(
    registry: Map<GlobalCell, u64>,
    pid: i32,
    now: u64,
    slot: usize,
    other: Option<usize>,
)
    requires
        manager_slot(registry, Some(slot)),
        manager_slot(manager_registered(registry, pid, now, Some(slot)), other),
    ensures
        other != Some(slot),
{
}

/// A slot that its manager has released can be had again.
pub proof fn law_released_slot_is_free(manager: ContainerManager, registry: Map<GlobalCell, u64>)
    ensures
        manager_free(
            crate::access::effect(
                registry,
                Access::Store(GlobalCell::SlotActive(manager.my_global_idx), 0),
            ),
            manager.my_global_idx as int,
        ),
{
}

/// A new manager starts from an average of 500 microseconds and is not to rest.
pub proof fn law_manager_starts_afresh(my_global_idx: usize, pid: i32, fixed_share_ratio: bool)
    ensures
        ({
            let manager = ContainerManager::fresh(my_global_idx, pid, fixed_share_ratio);
            &&& manager.my_pid == pid
            &&& manager.my_global_idx == my_global_idx
            &&& manager.current_avg_us == 500
            &&& manager.fixed_share_ratio == fixed_share_ratio
            &&& manager.next_run_not_before is None
        }),
{
}

/// What is published reaches its readers: the priority stands in the manager's slot
/// and in the container's segment, the limit is there in bytes, and nothing counts
/// as used. No other word changes.
pub proof fn law_limits_reach_segments(
    manager: ContainerManager,
    priority: u64,
    memory_limit_mb: u64,
    registry: Map<GlobalCell, u64>,
    memory: Map<LocalCell, u64>,
)
    requires
        memory_limit_mb * 1_048_576 <= 0xFFFF_FFFF_FFFF_FFFF,
    ensures
        ({
            let actions = manager.publications(priority, memory_limit_mb);
            let after = crate::manager::registry_after(registry, actions);
            let segment = crate::manager::segment_after(memory, actions);
            let slot = GlobalCell::SlotPriority(manager.my_global_idx);
            &&& after[slot] == priority
            &&& forall|c: GlobalCell| c != slot ==> #[trigger] after[c] == registry[c]
            &&& segment[LocalCell::MemoryLimit] == memory_limit_mb * 1_048_576
            &&& segment[LocalCell::MemoryUsed] == 0
            &&& segment[LocalCell::ComputePriority] == priority
            &&& forall|c: LocalCell|
                !(c is MemoryLimit) && !(c is MemoryUsed) && !(c is ComputePriority)
                    ==> #[trigger] segment[c] == memory[c]
            &&& segment == limits_published(memory, priority, memory_limit_mb)
        }),
{
    let actions = manager.publications(priority, memory_limit_mb);
    reveal_with_fuel(crate::manager::registry_after, 5);
    reveal_with_fuel(crate::manager::segment_after, 5);
    crate::access::lemma_fit_keeps(Width::W64, priority as int);
    crate::access::lemma_fit_keeps(Width::W64, memory_limit_mb * 1_048_576);
    assert(actions.drop_last().drop_last().drop_last().drop_last() =~= Seq::empty());
    assert(crate::manager::segment_after(memory, actions) =~= limits_published(
        memory,
        priority,
        memory_limit_mb,
    ));
}

/// A manager that ends frees its slot, counts the signal up by one and wakes those
/// who wait. No other word changes.
pub proof fn law_release_frees_slot(manager: ContainerManager, registry: Map<GlobalCell, u64>)
    requires
        registry[GlobalCell::SignalCounter] < 0x1_0000_0000,
    ensures
        ({
            let actions = manager.release_actions();
            let after = crate::manager::registry_after(registry, actions);
            let slot = GlobalCell::SlotActive(manager.my_global_idx);
            &&& after[slot] == 0
            &&& after[GlobalCell::SignalCounter] == if registry[GlobalCell::SignalCounter]
                < 0xFFFF_FFFF {
                registry[GlobalCell::SignalCounter] + 1
            } else {
                0
            }
            &&& forall|c: GlobalCell|
                c != slot && !(c is SignalCounter) ==> #[trigger] after[c] == registry[c]
            &&& actions.last() is WakeGlobal
        }),
{
    reveal_with_fuel(crate::manager::registry_after, 4);
    assert(manager.release_actions().drop_last().drop_last().drop_last() =~= Seq::empty());
}

/// A manager gets the first of the 64 slots whose active word is 0; none where all
/// are other than 0.
pub proof fn law_first_free_slot_is_taken(registry: Map<GlobalCell, u64>, slot: Option<usize>)
    requires
        manager_slot(registry, slot),
    ensures
        match slot {
            Some(i) => {
                &&& i < 64
                &&& registry[GlobalCell::SlotActive(i)] == 0
                &&& forall|j: usize| j < i ==> #[trigger] registry[GlobalCell::SlotActive(j)] != 0
            },
            None => forall|j: usize|
                j < 64 ==> #[trigger] registry[GlobalCell::SlotActive(j)] != 0,
        },
{
    assert forall|j: usize|
        j < 64 && !manager_free(registry, j as int) implies #[trigger] registry[
        GlobalCell::SlotActive(j)
    ] != 0 by {}
    match slot {
        Some(i) => {
            assert forall|j: usize| j < i implies #[trigger] registry[GlobalCell::SlotActive(j)]
                != 0 by {
                assert(!manager_free(registry, j as int));
            }
        },
        None => {
            assert forall|j: usize| j < 64 implies #[trigger] registry[GlobalCell::SlotActive(j)]
                != 0 by {
                assert(!manager_free(registry, j as int));
            }
        },
    }
}

/// A manager's slot names its process, starts from an average of 500 and carries
/// the time of the registration. No other word changes; without a slot none does.
pub proof fn law_slot_names_manager(
    registry: Map<GlobalCell, u64>,
    pid: i32,
    now: u64,
    slot: usize,
)
    ensures
        manager_registered(registry, pid, now, None) == registry,
        ({
            let after = manager_registered(registry, pid, now, Some(slot));
            &&& after[GlobalCell::SlotActive(slot)] == 1
            &&& crate::shmem::word_pid(after[GlobalCell::SlotPid(slot)]) == pid
            &&& after[GlobalCell::SlotAvg(slot)] == 500
            &&& after[GlobalCell::SlotHeartbeat(slot)] == now
            &&& forall|c: GlobalCell|
                c != GlobalCell::SlotActive(slot) && c != GlobalCell::SlotPid(slot) && c
                    != GlobalCell::SlotAvg(slot) && c != GlobalCell::SlotHeartbeat(slot)
                    ==> #[trigger] after[c] == registry[c]
        }),
{
    crate::shmem::law_pid_round_trip(pid, 0);
}

/// Whatever others do meanwhile, a manager tries the slots in order. A claim is lost
/// where the slot was not free; the 64th lost claim ends the search. A claim that is
/// won is followed by the manager's process, an average of 500 and the time, and
/// gives that slot.
pub proof fn law_slots_are_tried_in_order(
    registration: GlobalRegistration,
    found: u64,
    reply: u64,
    now: u64,
)
    requires
        registration.phase is Claim,
        registration.index < 64,
    ensures
        registration.asks_for(
            Access::CompareExchange(GlobalCell::SlotActive(registration.index), 0, 1),
        ),
        found != 0 && registration.index < 63 ==> registration.next(found) == (GlobalRegistration {
            index: (registration.index + 1) as usize,
            ..registration
        }),
        found != 0 && registration.index == 63 ==> registration.next(found).asks() == Step::<
            ManagerAction,
            Option<usize>,
        >::Done(None),
        found == 0 ==> {
            let won = registration.next(found);
            let named = won.next(reply);
            let seeded = named.next(reply);
            let timed = seeded.next(now);
            let i = registration.index;
            &&& won.asks() matches Step::Do(ManagerAction::Global(Access::Store(cell, word)))
                && cell == GlobalCell::SlotPid(i) && word < 0x1_0000_0000
                && crate::shmem::word_pid(word) == registration.pid
            &&& named.asks_for(Access::Store(GlobalCell::SlotAvg(i), 500))
            &&& seeded.asks() == Step::<ManagerAction, Option<usize>>::Do(ManagerAction::WallClock)
            &&& timed.asks_for(Access::Store(GlobalCell::SlotHeartbeat(i), now))
            &&& timed.next(reply).asks() == Step::<ManagerAction, Option<usize>>::Done(Some(i))
        },
{
    crate::shmem::law_pid_round_trip(registration.pid, 0);
}

impl GlobalRegistration {
    /// Whether the registration asks for an access to the registry.
    pub open spec fn asks_for(self, access: Access<GlobalCell>) -> bool {
        self.asks() == Step::<ManagerAction, Option<usize>>::Do(ManagerAction::Global(access))
    }
}

impl ContainerManager {
    /// A manager that has just got a slot.
    pub open spec fn fresh(
        my_global_idx: usize,
        pid: i32,
        fixed_share_ratio: bool,
    ) -> ContainerManager {
        ContainerManager {
            my_pid: pid,
            my_global_idx,
            current_avg_us: DEFAULT_AVG_US,
            fixed_share_ratio,
            next_run_not_before: None,
        }
    }

    /// What a new manager does to make its limits known.
    pub open spec fn publications(self, priority: u64, memory_limit_mb: u64) -> Seq<ManagerAction> {
        seq![
            ManagerAction::Global(
                Access::Store(GlobalCell::SlotPriority(self.my_global_idx), priority),
            ),
            ManagerAction::Local(
                Access::Store(LocalCell::MemoryLimit, (memory_limit_mb * MB_TO_BYTES) as u64),
            ),
            ManagerAction::Local(Access::Store(LocalCell::MemoryUsed, 0)),
            ManagerAction::Local(Access::Store(LocalCell::ComputePriority, priority)),
        ]
    }

    /// What a manager does when it ends.
    pub open spec fn release_actions(self) -> Seq<ManagerAction> {
        seq![
            ManagerAction::Global(Access::Store(GlobalCell::SlotActive(self.my_global_idx), 0)),
            ManagerAction::Global(Access::FetchAdd(GlobalCell::SignalCounter, 1)),
            ManagerAction::WakeGlobal,
        ]
    }
}

} // verus!
