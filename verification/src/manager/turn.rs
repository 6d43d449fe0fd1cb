//! Waiting for the turn on the device.

use vstd::prelude::*;

use crate::access::{Access, Step, Width};
use crate::manager::slot::ContainerManager;
use crate::manager::{
    Heartbeat, ManagerAction, GLOBAL_WAIT_POLL_US, GLOBAL_WATCHDOG_TIMEOUT_US,
};
use crate::shmem::{GlobalCell, GlobalRegistry, MAX_MANAGERS};

verus! {

/// Where a [`TurnWait`] stands. The first number of a phase is the owner that
/// was seen.
#[derive(Debug, Clone, Copy, PartialEq, Eq, Structural)]
pub enum TurnPhase {
    ReadOwner,
    ReadActive(u64),
    /// The owner does not exist or has gone.
    ClaimAbandoned(u64),
    ReadStamp(u64),
    ReadClock(u64, u64),
    /// The owner has been silent for too long.
    Evict(u64),
    ClaimStale(u64),
    ReadSignal,
    /// Look once more, so that a hand-over between is not slept through.
    Recheck(u64),
    Sleep(u64),
    Beat(Heartbeat),
    MyTurn,
}

/// Waits until a manager owns the turn.
#[derive(Debug, Clone, Copy, PartialEq, Eq, Structural)]
pub struct TurnWait {
    pub manager: usize,
    pub phase: TurnPhase,
}

/// Whether the owner of the turn has been silent for too long.
pub open spec fn is_stale(stamp: u64, now: u64) -> bool {
    now - stamp > GLOBAL_WATCHDOG_TIMEOUT_US
}

impl TurnWait {
    /// A wait that has not looked at anything.
    pub open spec fn initial(manager: usize) -> TurnWait {
        TurnWait { manager, phase: TurnPhase::ReadOwner }
    }

    /// The wait in another phase.
    pub open spec fn at(self, phase: TurnPhase) -> TurnWait {
        TurnWait { phase, ..self }
    }

    /// What the wait asks for. It ends when the turn is the manager's.
    pub open spec fn asks(self) -> Step<ManagerAction, ()> {
        let me = self.manager as u64;
        match self.phase {
            TurnPhase::ReadOwner => Step::Do(
                ManagerAction::Global(Access::Load(GlobalCell::LockOwner)),
            ),
            TurnPhase::ReadActive(owner) => Step::Do(
                ManagerAction::Global(Access::Load(GlobalCell::SlotActive(owner as usize))),
            ),
            TurnPhase::ClaimAbandoned(owner) => Step::Do(
                ManagerAction::Global(Access::CompareExchange(GlobalCell::LockOwner, owner, me)),
            ),
            TurnPhase::ReadStamp(_) => Step::Do(
                ManagerAction::Global(Access::Load(GlobalCell::LockTimestamp)),
            ),
            TurnPhase::ReadClock(_, _) => Step::Do(ManagerAction::WallClock),
            TurnPhase::Evict(owner) => Step::Do(
                ManagerAction::Global(Access::Store(GlobalCell::SlotActive(owner as usize), 0)),
            ),
            TurnPhase::ClaimStale(owner) => Step::Do(
                ManagerAction::Global(Access::CompareExchange(GlobalCell::LockOwner, owner, me)),
            ),
            TurnPhase::ReadSignal => Step::Do(
                ManagerAction::Global(Access::Load(GlobalCell::SignalCounter)),
            ),
            TurnPhase::Recheck(_) => Step::Do(
                ManagerAction::Global(Access::Load(GlobalCell::LockOwner)),
            ),
            TurnPhase::Sleep(signal) => Step::Do(
                ManagerAction::WaitGlobal(signal, GLOBAL_WAIT_POLL_US),
            ),
            TurnPhase::Beat(beat) => match beat.asks(self.manager) {
                Step::Do(action) => Step::Do(action),
                _ => Step::Done(()),
            },
            TurnPhase::MyTurn => Step::Done(()),
        }
    }

    /// The wait once it has the reply to what it asked.
    pub open spec fn next(self, reply: u64) -> TurnWait {
        let me = self.manager as u64;
        match self.phase {
            TurnPhase::ReadOwner => if reply == me {
                self.at(TurnPhase::MyTurn)
            } else if reply < MAX_MANAGERS {
                self.at(TurnPhase::ReadActive(reply))
            } else {
                self.at(TurnPhase::ClaimAbandoned(reply))
            },
            TurnPhase::ReadActive(owner) => if reply == 1 {
                self.at(TurnPhase::ReadStamp(owner))
            } else {
                self.at(TurnPhase::ClaimAbandoned(owner))
            },
            TurnPhase::ClaimAbandoned(owner) => if reply == owner {
                self.at(TurnPhase::Beat(Heartbeat::ReadForTurn))
            } else {
                self.at(TurnPhase::ReadStamp(owner))
            },
            TurnPhase::ReadStamp(owner) => self.at(TurnPhase::ReadClock(owner, reply)),
            TurnPhase::ReadClock(owner, stamp) => if !is_stale(stamp, reply) {
                self.at(TurnPhase::ReadSignal)
            } else if owner < MAX_MANAGERS {
                self.at(TurnPhase::Evict(owner))
            } else {
                self.at(TurnPhase::ClaimStale(owner))
            },
            TurnPhase::Evict(owner) => self.at(TurnPhase::ClaimStale(owner)),
            TurnPhase::ClaimStale(owner) => if reply == owner {
                self.at(TurnPhase::Beat(Heartbeat::ReadForTurn))
            } else {
                self.at(TurnPhase::ReadSignal)
            },
            TurnPhase::ReadSignal => self.at(TurnPhase::Recheck(reply)),
            TurnPhase::Recheck(signal) => if reply == me {
                self.at(TurnPhase::MyTurn)
            } else {
                self.at(TurnPhase::Sleep(signal))
            },
            TurnPhase::Sleep(_) => self.at(TurnPhase::ReadOwner),
            TurnPhase::Beat(beat) => match beat.next(reply) {
                Heartbeat::Finished => self.at(TurnPhase::MyTurn),
                further => self.at(TurnPhase::Beat(further)),
            },
            TurnPhase::MyTurn => self,
        }
    }

    /// Tells what to do next.
    pub fn step(&self) -> (step: Step<ManagerAction, ()>)
        ensures
            step == self.asks(),
    {
        let me: u64 = self.manager as u64;
        let access = match &self.phase {
            TurnPhase::ReadOwner => Access::Load(GlobalCell::LockOwner),
            TurnPhase::ReadActive(owner) => Access::Load(GlobalCell::SlotActive(*owner as usize)),
            TurnPhase::ClaimAbandoned(owner) => Access::CompareExchange(
                GlobalCell::LockOwner,
                *owner,
                me,
            ),
            TurnPhase::ReadStamp(_) => Access::Load(GlobalCell::LockTimestamp),
            TurnPhase::Evict(owner) => Access::Store(GlobalCell::SlotActive(*owner as usize), 0),
            TurnPhase::ClaimStale(owner) => Access::CompareExchange(
                GlobalCell::LockOwner,
                *owner,
                me,
            ),
            TurnPhase::ReadSignal => Access::Load(GlobalCell::SignalCounter),
            TurnPhase::Recheck(_) => Access::Load(GlobalCell::LockOwner),
            TurnPhase::ReadClock(_, _) => {
                return Step::Do(ManagerAction::WallClock);
            },
            TurnPhase::Sleep(signal) => {
                return Step::Do(ManagerAction::WaitGlobal(*signal, GLOBAL_WAIT_POLL_US));
            },
            TurnPhase::Beat(beat) => {
                return match beat.step(self.manager) {
                    Step::Do(action) => Step::Do(action),
                    _ => Step::Done(()),
                };
            },
            TurnPhase::MyTurn => {
                return Step::Done(());
            },
        };
        Step::Do(ManagerAction::Global(access))
    }

    /// Takes the reply to what was asked.
    pub fn advance(&mut self, reply: u64)
        ensures
            *final(self) == old(self).next(reply),
    {
        let me: u64 = self.manager as u64;
        self.phase = match self.phase {
            TurnPhase::ReadOwner => if reply == me {
                TurnPhase::MyTurn
            } else if reply < MAX_MANAGERS as u64 {
                TurnPhase::ReadActive(reply)
            } else {
                TurnPhase::ClaimAbandoned(reply)
            },
            TurnPhase::ReadActive(owner) => if reply == 1 {
                TurnPhase::ReadStamp(owner)
            } else {
                TurnPhase::ClaimAbandoned(owner)
            },
            TurnPhase::ClaimAbandoned(owner) => if reply == owner {
                TurnPhase::Beat(Heartbeat::start())
            } else {
                TurnPhase::ReadStamp(owner)
            },
            TurnPhase::ReadStamp(owner) => TurnPhase::ReadClock(owner, reply),
            TurnPhase::ReadClock(owner, stamp) => if reply > stamp && reply - stamp
                > GLOBAL_WATCHDOG_TIMEOUT_US {
                if owner < MAX_MANAGERS as u64 {
                    TurnPhase::Evict(owner)
                } else {
                    TurnPhase::ClaimStale(owner)
                }
            } else {
                TurnPhase::ReadSignal
            },
            TurnPhase::Evict(owner) => TurnPhase::ClaimStale(owner),
            TurnPhase::ClaimStale(owner) => if reply == owner {
                TurnPhase::Beat(Heartbeat::start())
            } else {
                TurnPhase::ReadSignal
            },
            TurnPhase::ReadSignal => TurnPhase::Recheck(reply),
            TurnPhase::Recheck(signal) => if reply == me {
                TurnPhase::MyTurn
            } else {
                TurnPhase::Sleep(signal)
            },
            TurnPhase::Sleep(_) => TurnPhase::ReadOwner,
            TurnPhase::Beat(beat) => {
                let mut further = beat;
                further.advance(reply);
                match further {
                    Heartbeat::Finished => TurnPhase::MyTurn,
                    _ => TurnPhase::Beat(further),
                }
            },
            TurnPhase::MyTurn => TurnPhase::MyTurn,
        };
    }

    /// Whether the manager has got the turn.
    pub open spec fn has_turn(self) -> bool {
        self.phase is Beat || self.phase is MyTurn
    }
}

/// The registry once a manager has shown that it is alive, at the time that was
/// read for the turn and at the one that was read for its slot.
pub open spec fn shown_alive(
    registry: Map<GlobalCell, u64>,
    manager: usize,
    turn_now: u64,
    slot_now: u64,
) -> Map<GlobalCell, u64> {
    registry.insert(GlobalCell::LockTimestamp, turn_now).insert(
        GlobalCell::SlotHeartbeat(manager),
        slot_now,
    )
}

impl ContainerManager {
    /// Starts to wait for the turn.
    pub fn wait_for_global_turn(&self) -> (wait: TurnWait)
        ensures
            wait == (TurnWait { manager: self.my_global_idx, phase: TurnPhase::ReadOwner }),
            wait == TurnWait::initial(self.my_global_idx),
    {
        TurnWait { manager: self.my_global_idx, phase: TurnPhase::ReadOwner }
    }

    /// Shows that the manager is alive, in a registry that is held alone. The
    /// clock is read once for the turn and once more for the manager's slot.
    pub fn update_heartbeat(&self, registry: &mut GlobalRegistry, turn_now: u64, slot_now: u64)
        requires
            self.wf(),
        ensures
            final(registry)@ == shown_alive(
                old(registry)@,
                self.my_global_idx,
                turn_now,
                slot_now,
            ),
    {
        let ghost before = registry@;
        let mut beat = Heartbeat::start();
        proof {
            crate::access::lemma_fit_keeps(Width::W64, turn_now as int);
            crate::access::lemma_fit_keeps(Width::W64, slot_now as int);
        }
        loop
            invariant
                self.wf(),
                before == old(registry)@,
                Width::W64.fit(turn_now as int) == turn_now,
                Width::W64.fit(slot_now as int) == slot_now,
                match beat {
                    Heartbeat::ReadForTurn => registry@ == before,
                    Heartbeat::StoreTurn(now) => registry@ == before && now == turn_now,
                    Heartbeat::ReadForSlot => registry@ == before.insert(
                        GlobalCell::LockTimestamp,
                        turn_now,
                    ),
                    Heartbeat::StoreSlot(now) => {
                        &&& registry@ == before.insert(GlobalCell::LockTimestamp, turn_now)
                        &&& now == slot_now
                    },
                    Heartbeat::Finished => registry@ == shown_alive(
                        before,
                        self.my_global_idx,
                        turn_now,
                        slot_now,
                    ),
                },
            decreases
                match beat {
                    Heartbeat::ReadForTurn => 4int,
                    Heartbeat::StoreTurn(_) => 3,
                    Heartbeat::ReadForSlot => 2,
                    Heartbeat::StoreSlot(_) => 1,
                    Heartbeat::Finished => 0,
                },
        {
            match beat.step(self.my_global_idx) {
                Step::Do(ManagerAction::Global(access)) => {
                    let reply: u64 = registry.perform(access);
                    beat.advance(reply);
                },
                Step::Do(ManagerAction::WallClock) => {
                    let reply: u64 = match beat {
                        Heartbeat::ReadForTurn => turn_now,
                        _ => slot_now,
                    };
                    beat.advance(reply);
                },
                _ => {
                    return ;
                },
            }
        }
    }
}

/// Whatever the registry holds, a manager gets the turn only by an access after
/// which the registry names it as the owner.
pub proof fn law_turn_means_ownership(
    wait: TurnWait,
    access: Access<GlobalCell>,
    registry: Map<GlobalCell, u64>,
)
    requires
        wait.manager < MAX_MANAGERS,
        !wait.has_turn(),
        wait.asks() == Step::<ManagerAction, ()>::Do(ManagerAction::Global(access)),
        registry[GlobalCell::LockOwner] < Width::W32.span(),
        wait.next(registry[access.cell()]).has_turn(),
    ensures
        crate::access::effect(registry, access)[GlobalCell::LockOwner] == wait.manager,
{
    crate::access::lemma_fit_keeps(Width::W32, registry[GlobalCell::LockOwner] as int);
}

/// No reply but one to an access to the registry gives a manager the turn.
pub proof fn law_turn_needs_access(wait: TurnWait, reply: u64)
    requires
        !wait.has_turn(),
        !(wait.asks() matches Step::Do(ManagerAction::Global(_))),
    ensures
        !wait.next(reply).has_turn(),
{
}

/// The owner of the turn has it at once, and writes nothing.
pub proof fn law_owner_has_turn(manager: usize, registry: Map<GlobalCell, u64>, now: u64)
    requires
        registry.dom().contains(GlobalCell::LockOwner),
        registry[GlobalCell::LockOwner] == manager,
    ensures
        ({
            let wait = TurnWait { manager, phase: TurnPhase::ReadOwner };
            wait.lone_run(registry, now, 1) == (wait.at(TurnPhase::MyTurn), registry)
        }),
{
    lemma_load_keeps(registry, GlobalCell::LockOwner);
    reveal_with_fuel(TurnWait::lone_run, 2);
}

/// An owner that is active and has shown itself within a second keeps the turn: the
/// manager goes to sleep without having written anything.
pub proof fn law_live_owner_keeps_turn(
    manager: usize,
    registry: Map<GlobalCell, u64>,
    now: u64,
)
    requires
        manager < MAX_MANAGERS,
        forall|c: GlobalCell| crate::access::Cell::valid(c) ==> #[trigger] registry.dom().contains(c),
        registry[GlobalCell::LockOwner] != manager,
        registry[GlobalCell::LockOwner] < MAX_MANAGERS,
        registry[GlobalCell::SlotActive(registry[GlobalCell::LockOwner] as usize)] == 1,
        now <= registry[GlobalCell::LockTimestamp] + 1_000_000,
    ensures
        ({
            let wait = TurnWait { manager, phase: TurnPhase::ReadOwner };
            wait.lone_run(registry, now, 6) == (
                wait.at(TurnPhase::Sleep(registry[GlobalCell::SignalCounter])),
                registry,
            )
        }),
{
    let owner = registry[GlobalCell::LockOwner];
    lemma_load_keeps(registry, GlobalCell::LockOwner);
    lemma_load_keeps(registry, GlobalCell::SlotActive(owner as usize));
    lemma_load_keeps(registry, GlobalCell::LockTimestamp);
    lemma_load_keeps(registry, GlobalCell::SignalCounter);
    reveal_with_fuel(TurnWait::lone_run, 7);
}

/// An owner that does not exist or has gone loses the turn at once to a manager
/// that nobody competes with: it owns the turn and has shown itself, and nothing
/// else has changed.
pub proof fn law_abandoned_turn_is_taken(
    manager: usize,
    registry: Map<GlobalCell, u64>,
    now: u64,
)
    requires
        manager < MAX_MANAGERS,
        forall|c: GlobalCell| crate::access::Cell::valid(c) ==> #[trigger] registry.dom().contains(c),
        registry[GlobalCell::LockOwner] < Width::W32.span(),
        registry[GlobalCell::LockOwner] != manager,
        registry[GlobalCell::LockOwner] < MAX_MANAGERS
            ==> registry[GlobalCell::SlotActive(registry[GlobalCell::LockOwner] as usize)] != 1,
    ensures
        ({
            let wait = TurnWait { manager, phase: TurnPhase::ReadOwner };
            let end = wait.lone_run(registry, now, 7);
            &&& end.0.phase is MyTurn
            &&& end.1 == registry.insert(GlobalCell::LockOwner, manager as u64).insert(
                GlobalCell::LockTimestamp,
                now,
            ).insert(GlobalCell::SlotHeartbeat(manager), now)
        }),
{
    let wait = TurnWait { manager, phase: TurnPhase::ReadOwner };
    let owner = registry[GlobalCell::LockOwner];
    lemma_load_keeps(registry, GlobalCell::LockOwner);
    if owner < MAX_MANAGERS {
        lemma_load_keeps(registry, GlobalCell::SlotActive(owner as usize));
    }
    crate::access::lemma_fit_keeps(Width::W32, owner as int);
    crate::access::lemma_fit_keeps(Width::W32, manager as int);
    crate::access::lemma_fit_keeps(Width::W64, now as int);
    reveal_with_fuel(TurnWait::lone_run, 8);
}

/// An owner that is active but silent for more than a second, however long, loses
/// its slot and the turn to a manager that nobody competes with.
pub proof fn law_stale_owner_is_evicted(
    manager: usize,
    registry: Map<GlobalCell, u64>,
    now: u64,
)
    requires
        manager < MAX_MANAGERS,
        forall|c: GlobalCell| crate::access::Cell::valid(c) ==> #[trigger] registry.dom().contains(c),
        registry[GlobalCell::LockOwner] != manager,
        registry[GlobalCell::LockOwner] < MAX_MANAGERS,
        registry[GlobalCell::SlotActive(registry[GlobalCell::LockOwner] as usize)] == 1,
        now > registry[GlobalCell::LockTimestamp] + 1_000_000,
    ensures
        ({
            let wait = TurnWait { manager, phase: TurnPhase::ReadOwner };
            let owner = registry[GlobalCell::LockOwner];
            let end = wait.lone_run(registry, now, 10);
            &&& end.0.phase is MyTurn
            &&& end.1 == registry.insert(GlobalCell::SlotActive(owner as usize), 0).insert(
                GlobalCell::LockOwner,
                manager as u64,
            ).insert(GlobalCell::LockTimestamp, now).insert(GlobalCell::SlotHeartbeat(manager), now)
        }),
{
    let wait = TurnWait { manager, phase: TurnPhase::ReadOwner };
    let owner = registry[GlobalCell::LockOwner];
    lemma_load_keeps(registry, GlobalCell::LockOwner);
    lemma_load_keeps(registry, GlobalCell::SlotActive(owner as usize));
    lemma_load_keeps(registry, GlobalCell::LockTimestamp);
    crate::access::lemma_fit_keeps(Width::W32, owner as int);
    crate::access::lemma_fit_keeps(Width::W32, manager as int);
    crate::access::lemma_fit_keeps(Width::W32, 0);
    crate::access::lemma_fit_keeps(Width::W64, now as int);
    reveal_with_fuel(TurnWait::lone_run, 11);
}

/// What a manager that waits finds at a moment.
pub ghost struct Moment {
    pub registry: Map<GlobalCell, u64>,
    /// What the wall clock shows.
    pub now: u64,
}

impl TurnWait {
    /// A wait after it has been answered at a sequence of moments, between which
    /// others may have changed the registry in any way.
    pub open spec fn through(self, moments: Seq<Moment>) -> TurnWait
        decreases moments.len(),
    {
        if moments.len() == 0 {
            self
        } else {
            let wait = self.through(moments.drop_last());
            let moment = moments.last();
            match wait.asks() {
                Step::Do(action) => wait.next(
                    crate::manager::lone_reply(moment.registry, moment.now, action),
                ),
                _ => wait,
            }
        }
    }
}

/// Whether an owner keeps its turn through a sequence of moments: it is named and
/// active at each of them, and refreshes the stamp so that the clock never shows
/// more than a second beyond what the stamp was a moment before.
pub open spec fn stays_alive(moments: Seq<Moment>, owner: u64) -> bool {
    &&& owner < MAX_MANAGERS
    &&& forall|i: int|
        0 <= i < moments.len() ==> (#[trigger] moments[i]).registry[GlobalCell::LockOwner] == owner
            && moments[i].registry[GlobalCell::SlotActive(owner as usize)] == 1
    &&& forall|i: int|
        #![trigger moments[i]]
        0 < i < moments.len() ==> moments[i].now <= moments[i
            - 1].registry[GlobalCell::LockTimestamp] + 1_000_000
}

/// However long a manager waits and whatever else changes meanwhile, an owner that
/// stays alive is not displaced: the manager never has the turn and never asks for
/// anything that changes the registry.
pub proof fn law_refreshed_owner_is_not_displaced(
    manager: usize,
    owner: u64,
    moments: Seq<Moment>,
    registry: Map<GlobalCell, u64>,
)
    requires
        owner != manager,
        stays_alive(moments, owner),
        forall|c: GlobalCell| crate::access::Cell::valid(c) ==> #[trigger] registry.dom().contains(c),
    ensures
        ({
            let start = TurnWait { manager, phase: TurnPhase::ReadOwner };
            let wait = start.through(moments);
            &&& !wait.has_turn()
            &&& wait.asks() matches Step::Do(action) && crate::manager::lone_effect(
                registry,
                action,
            ) == registry
        }),
{
    let start = TurnWait { manager, phase: TurnPhase::ReadOwner };
    lemma_owner_is_respected(manager, owner, moments);
    match start.through(moments).asks() {
        Step::Do(ManagerAction::Global(Access::Load(cell))) => {
            lemma_load_keeps(registry, cell);
        },
        _ => {},
    }
}

proof fn lemma_owner_is_respected(manager: usize, owner: u64, moments: Seq<Moment>)
    requires
        owner != manager,
        stays_alive(moments, owner),
    ensures
        ({
            let start = TurnWait { manager, phase: TurnPhase::ReadOwner };
            let wait = start.through(moments);
            &&& wait.manager == manager
            &&& match wait.phase {
                TurnPhase::ReadOwner => true,
                TurnPhase::ReadActive(seen) => seen == owner,
                TurnPhase::ReadStamp(seen) => seen == owner,
                TurnPhase::ReadClock(seen, stamp) => {
                    &&& seen == owner && moments.len() > 0
                    &&& stamp == moments.last().registry[GlobalCell::LockTimestamp]
                },
                TurnPhase::ReadSignal => true,
                TurnPhase::Recheck(_) => true,
                TurnPhase::Sleep(_) => true,
                _ => false,
            }
        }),
    decreases moments.len(),
{
    if moments.len() > 0 {
        let few = moments.drop_last();
        assert forall|i: int| 0 <= i < few.len() implies (
        #[trigger] few[i]).registry[GlobalCell::LockOwner] == owner
            && few[i].registry[GlobalCell::SlotActive(owner as usize)] == 1 by {
            assert(few[i] == moments[i]);
        }
        assert forall|i: int| #![trigger few[i]] 0 < i < few.len() implies few[i].now <= few[i
            - 1].registry[GlobalCell::LockTimestamp] + 1_000_000 by {
            assert(few[i] == moments[i]);
        }
        lemma_owner_is_respected(manager, owner, few);
        let last = moments[moments.len() - 1];
        assert(last == moments.last());
        if few.len() > 0 {
            assert(few.last() == moments[moments.len() - 2]);
        }
    }
}

/// Whether the wait's answer at one of the moments was to an access that left the
/// manager as the owner of the turn.
pub open spec fn owned_at(start: TurnWait, moments: Seq<Moment>, i: int) -> bool {
    &&& 0 <= i < moments.len()
    &&& start.through(moments.take(i)).asks() matches Step::Do(ManagerAction::Global(access))
        && crate::access::effect(moments[i].registry, access)[GlobalCell::LockOwner]
        == start.manager
}

proof fn lemma_wait_is_on_course(manager: usize, moments: Seq<Moment>)
    requires
        manager < MAX_MANAGERS,
        forall|i: int|
            0 <= i < moments.len() ==> (#[trigger] moments[i]).registry[GlobalCell::LockOwner]
                < 0x1_0000_0000,
    ensures
        ({
            let start = TurnWait { manager, phase: TurnPhase::ReadOwner };
            let n = moments.len() as int;
            let last = moments[n - 1];
            let before = moments[n - 2];
            let wait = start.through(moments);
            &&& wait.manager == manager
            &&& match wait.phase {
                TurnPhase::ReadOwner => true,
                TurnPhase::ReadActive(owner) => {
                    &&& n >= 1 && owner == last.registry[GlobalCell::LockOwner]
                    &&& owner != manager && owner < 64
                },
                TurnPhase::ClaimAbandoned(owner) => {
                    &&& owner != manager && owner < 0x1_0000_0000
                    &&& if owner < 64 {
                        &&& n >= 2 && owner == before.registry[GlobalCell::LockOwner]
                        &&& last.registry[GlobalCell::SlotActive(owner as usize)] != 1
                    } else {
                        n >= 1 && owner == last.registry[GlobalCell::LockOwner]
                    }
                },
                TurnPhase::ReadStamp(owner) => owner != manager && owner < 0x1_0000_0000,
                TurnPhase::ReadClock(owner, stamp) => {
                    &&& owner != manager && owner < 0x1_0000_0000
                    &&& n >= 1 && stamp == last.registry[GlobalCell::LockTimestamp]
                },
                TurnPhase::Evict(owner) => {
                    &&& owner != manager && owner < 64 && n >= 2
                    &&& last.now > before.registry[GlobalCell::LockTimestamp] + 1_000_000
                },
                TurnPhase::ClaimStale(owner) => {
                    &&& owner != manager && owner < 0x1_0000_0000 && n >= 2
                    &&& owner >= 64 ==> last.now > before.registry[GlobalCell::LockTimestamp]
                        + 1_000_000
                    &&& owner < 64 ==> n >= 3 && before.now > moments[n
                        - 3].registry[GlobalCell::LockTimestamp] + 1_000_000
                },
                TurnPhase::ReadSignal => true,
                TurnPhase::Recheck(signal) => n >= 1 && signal
                    == last.registry[GlobalCell::SignalCounter],
                TurnPhase::Sleep(signal) => {
                    &&& n >= 2 && signal == before.registry[GlobalCell::SignalCounter]
                    &&& last.registry[GlobalCell::LockOwner] != manager
                },
                TurnPhase::Beat(beat) => {
                    &&& !(beat is Finished)
                    &&& exists|i: int| #[trigger] owned_at(start, moments, i)
                },
                TurnPhase::MyTurn => exists|i: int| #[trigger] owned_at(start, moments, i),
            }
        }),
    decreases moments.len(),
{
    let start = TurnWait { manager, phase: TurnPhase::ReadOwner };
    if moments.len() > 0 {
        let few = moments.drop_last();
        let n = moments.len() as int;
        let last = moments[n - 1];
        assert forall|i: int| 0 <= i < few.len() implies (
        #[trigger] few[i]).registry[GlobalCell::LockOwner] < 0x1_0000_0000 by {
            assert(few[i] == moments[i]);
        }
        lemma_wait_is_on_course(manager, few);
        let seen = start.through(few);
        let wait = start.through(moments);
        assert(last == moments.last());
        assert(moments.take(n - 1) =~= few);
        crate::access::lemma_fit_keeps(Width::W32, manager as int);
        crate::access::lemma_fit_keeps(
            Width::W32,
            last.registry[GlobalCell::LockOwner] as int,
        );
        if wait.phase is Beat || wait.phase is MyTurn {
            if seen.phase is Beat || seen.phase is MyTurn {
                let i = choose|i: int| #[trigger] owned_at(start, few, i);
                assert(few.take(i) =~= moments.take(i));
                assert(owned_at(start, moments, i));
            } else {
                assert(owned_at(start, moments, n - 1));
            }
        }
    }
}

/// However the registry changes while a manager waits, it gets the turn only by an
/// access after which the registry names it as the owner.
pub proof fn law_turn_is_named(manager: usize, moments: Seq<Moment>)
    requires
        manager < 64,
        forall|i: int|
            0 <= i < moments.len() ==> (#[trigger] moments[i]).registry[GlobalCell::LockOwner]
                < 0x1_0000_0000,
        TurnWait::initial(manager).through(moments).asks() is Done,
    ensures
        exists|i: int| #[trigger] owned_at(TurnWait::initial(manager), moments, i),
{
    lemma_wait_is_on_course(manager, moments);
}

/// However the registry changes while a manager waits, it takes another's slot away
/// only when the clock has shown more than a second beyond the stamp that was read
/// just before, it claims the turn for itself and from nobody but an owner that it
/// has found silent, gone or out of range, and it sleeps for a millisecond at most,
/// on the signal that it read before it saw that the turn was not its own.
pub proof fn law_wait_acts_for_cause(manager: usize, moments: Seq<Moment>)
    requires
        manager < 64,
        forall|i: int|
            0 <= i < moments.len() ==> (#[trigger] moments[i]).registry[GlobalCell::LockOwner]
                < 0x1_0000_0000,
    ensures
        ({
            let n = moments.len() as int;
            let last = moments[n - 1];
            let before = moments[n - 2];
            match TurnWait::initial(manager).through(moments).asks() {
                Step::Do(ManagerAction::Global(Access::Store(GlobalCell::SlotActive(slot), word))) => {
                    &&& word == 0 && slot != manager && n >= 2
                    &&& last.now > before.registry[GlobalCell::LockTimestamp] + 1_000_000
                },
                Step::Do(ManagerAction::Global(Access::CompareExchange(cell, owner, new))) => {
                    &&& cell == GlobalCell::LockOwner && new == manager && owner != manager
                    &&& {
                        ||| n >= 1 && owner == last.registry[GlobalCell::LockOwner] && owner >= 64
                        ||| n >= 2 && owner == before.registry[GlobalCell::LockOwner]
                            && last.registry[GlobalCell::SlotActive(owner as usize)] != 1
                        ||| n >= 2 && last.now > before.registry[GlobalCell::LockTimestamp]
                            + 1_000_000
                        ||| n >= 3 && before.now > moments[n
                            - 3].registry[GlobalCell::LockTimestamp] + 1_000_000
                    }
                },
                Step::Do(ManagerAction::WaitGlobal(signal, us)) => {
                    &&& us == 1_000 && n >= 2
                    &&& signal == before.registry[GlobalCell::SignalCounter]
                    &&& last.registry[GlobalCell::LockOwner] != manager
                },
                _ => true,
            }
        }),
{
    lemma_wait_is_on_course(manager, moments);
}

/// A wait that loses a race does not give up: it looks at the stamp, and where it
/// has lost that one too, it sleeps and looks at the owner again.
pub proof fn law_lost_race_is_retried(wait: TurnWait, owner: u64, reply: u64)
    requires
        reply != owner,
    ensures
        wait.at(TurnPhase::ClaimAbandoned(owner)).next(reply).asks() == Step::<
            ManagerAction,
            (),
        >::Do(ManagerAction::Global(Access::Load(GlobalCell::LockTimestamp))),
        wait.at(TurnPhase::ClaimStale(owner)).next(reply).asks() == Step::<
            ManagerAction,
            (),
        >::Do(ManagerAction::Global(Access::Load(GlobalCell::SignalCounter))),
        forall|signal: u64|
            (#[trigger] wait.at(TurnPhase::Sleep(signal))).next(reply).asks() == Step::<
                ManagerAction,
                (),
            >::Do(ManagerAction::Global(Access::Load(GlobalCell::LockOwner))),
{
}

/// Showing that a manager is alive changes the stamp of the turn and the stamp of
/// its slot, to the times that were read for them, and nothing else.
pub proof fn law_heartbeat_stamps_turn_and_slot(
    registry: Map<GlobalCell, u64>,
    manager: usize,
    turn_now: u64,
    slot_now: u64,
    cell: GlobalCell,
)
    ensures
        shown_alive(registry, manager, turn_now, slot_now)[GlobalCell::LockTimestamp] == turn_now,
        shown_alive(registry, manager, turn_now, slot_now)[GlobalCell::SlotHeartbeat(manager)]
            == slot_now,
        cell != GlobalCell::LockTimestamp && cell != GlobalCell::SlotHeartbeat(manager)
            ==> shown_alive(registry, manager, turn_now, slot_now)[cell] == registry[cell],
{
}

proof fn lemma_load_keeps(registry: Map<GlobalCell, u64>, cell: GlobalCell)
    requires
        registry.dom().contains(cell),
    ensures
        crate::access::effect(registry, Access::Load(cell)) == registry,
{
    assert(crate::access::effect(registry, Access::Load(cell)) =~= registry);
}

impl TurnWait {
    /// A wait and the registry after some replies, when nobody else interferes
    /// and the wall clock shows `now`.
    pub open spec fn lone_run(self, registry: Map<GlobalCell, u64>, now: u64, replies: nat) -> (
        TurnWait,
        Map<GlobalCell, u64>,
    )
        decreases replies,
    {
        if replies == 0 {
            (self, registry)
        } else {
            let (wait, seen) = self.lone_run(registry, now, (replies - 1) as nat);
            match wait.asks() {
                Step::Do(action) => (
                    wait.next(crate::manager::lone_reply(seen, now, action)),
                    crate::manager::lone_effect(seen, action),
                ),
                _ => (wait, seen),
            }
        }
    }
}

impl TurnWait {
    /// Whether the wait asks for an access to the registry.
    pub open spec fn asks_for(self, access: Access<GlobalCell>) -> bool {
        self.asks() == Step::<ManagerAction, ()>::Do(ManagerAction::Global(access))
    }

    /// Whether the wait looks at how long an owner has been silent.
    pub open spec fn examines(self, owner: u64) -> bool {
        &&& self.phase == TurnPhase::ReadStamp(owner)
        &&& self.asks_for(Access::Load(GlobalCell::LockTimestamp))
    }

    /// Whether the wait shows that its manager is alive, and then has the turn.
    pub open spec fn takes_turn(self) -> bool {
        let clock = Step::<ManagerAction, ()>::Do(ManagerAction::WallClock);
        &&& self.asks() == clock
        &&& forall|turn: u64, slot: u64|
            #![trigger self.next(turn).next(0).next(slot)]
            {
                let stamped = self.next(turn).next(0);
                let shown = stamped.next(slot);
                &&& self.next(turn).asks_for(Access::Store(GlobalCell::LockTimestamp, turn))
                &&& stamped.asks() == clock
                &&& shown.asks_for(Access::Store(GlobalCell::SlotHeartbeat(self.manager), slot))
                &&& shown.next(0).asks() is Done
            }
    }

    /// Whether the wait is about to sleep: it reads the signal and looks at the owner
    /// once more before it does.
    pub open spec fn gets_drowsy(self) -> bool {
        &&& self.phase is ReadSignal
        &&& self.asks_for(Access::Load(GlobalCell::SignalCounter))
    }
}

/// What a wait does by the owner that it finds. If that is its manager, it has the
/// turn. If it is one of the 64 managers and active, the wait looks at how long it
/// has been silent. Any other owner it tries to replace by its manager.
pub proof fn law_owner_decides(wait: TurnWait, owner: u64, active: u64, found: u64)
    requires
        wait.phase is ReadOwner,
        wait.manager < 64,
    ensures
        ({
            let seen = wait.next(owner);
            let checked = if owner < 64 {
                seen.next(active)
            } else {
                seen
            };
            &&& wait.asks_for(Access::Load(GlobalCell::LockOwner))
            &&& owner == wait.manager ==> seen.asks() is Done
            &&& owner != wait.manager ==> {
                &&& owner < 64 ==> seen.asks_for(
                    Access::Load(GlobalCell::SlotActive(owner as usize)),
                )
                &&& owner < 64 && active == 1 ==> checked.examines(owner)
                &&& owner >= 64 || active != 1 ==> {
                    &&& checked.asks_for(
                        Access::CompareExchange(
                            GlobalCell::LockOwner,
                            owner,
                            wait.manager as u64,
                        ),
                    )
                    &&& checked.next(owner).takes_turn()
                    &&& found != owner ==> checked.next(found).examines(owner)
                }
                &&& checked.manager == wait.manager
            }
        }),
{
}

/// What a wait does by how long the owner has been silent. After more than a second
/// it takes the owner's slot away, where it has one, and tries to replace it by its
/// manager. Until then, and where somebody else was quicker, it gets ready to sleep.
pub proof fn law_silence_decides(wait: TurnWait, owner: u64, stamp: u64, now: u64, found: u64)
    requires
        wait.examines(owner),
        wait.manager < 64,
    ensures
        ({
            let timed = wait.next(stamp);
            let judged = timed.next(now);
            let claiming = if owner < 64 {
                judged.next(found)
            } else {
                judged
            };
            &&& timed.asks() == Step::<ManagerAction, ()>::Do(ManagerAction::WallClock)
            &&& now <= stamp + 1_000_000 ==> judged.gets_drowsy()
            &&& now > stamp + 1_000_000 ==> {
                &&& owner < 64 ==> judged.asks_for(
                    Access::Store(GlobalCell::SlotActive(owner as usize), 0),
                )
                &&& claiming.asks_for(
                    Access::CompareExchange(GlobalCell::LockOwner, owner, wait.manager as u64),
                )
                &&& claiming.next(owner).takes_turn()
                &&& found != owner ==> claiming.next(found).gets_drowsy()
                &&& claiming.manager == wait.manager
            }
            &&& judged.manager == wait.manager
        }),
{
}

/// A wait that gets ready to sleep has the turn where the owner is its manager by
/// now. Otherwise it sleeps for a millisecond at most, while the signal is what it
/// was before that look, and starts over.
pub proof fn law_sleep_is_short(wait: TurnWait, signal: u64, owner: u64, reply: u64)
    requires
        wait.gets_drowsy(),
    ensures
        ({
            let looking = wait.next(signal);
            let decided = looking.next(owner);
            &&& looking.asks_for(Access::Load(GlobalCell::LockOwner))
            &&& owner == wait.manager ==> decided.asks() is Done
            &&& owner != wait.manager ==> {
                &&& decided.asks() == Step::<ManagerAction, ()>::Do(
                    ManagerAction::WaitGlobal(signal, 1_000),
                )
                &&& decided.next(reply) == TurnWait::initial(wait.manager)
            }
        }),
        TurnWait::initial(wait.manager).phase is ReadOwner,
        TurnWait::initial(wait.manager).manager == wait.manager,
{
}

} // verus!
