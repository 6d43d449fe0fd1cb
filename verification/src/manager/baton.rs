//! The queue of managers, and handing the turn on.

use vstd::prelude::*;

use crate::access::{Access, Cell, Step, Width, SPAN_32};
use crate::manager::slot::ContainerManager;
use crate::manager::ManagerAction;
use crate::shmem::{GlobalCell, GlobalRegistry, MAX_MANAGERS};

verus! {

/// Puts a manager at the end of the queue.
#[derive(Debug, Clone, Copy, PartialEq, Eq, Structural)]
pub enum QueueJoin {
    Enter,
    Place(u64),
    Finished,
}

impl QueueJoin {
    /// What joining the queue asks for.
    pub open spec fn asks(self, manager: usize) -> Step<ManagerAction, ()> {
        match self {
            QueueJoin::Enter => Step::Do(
                ManagerAction::Global(Access::FetchAdd(GlobalCell::QueueTail, 1)),
            ),
            QueueJoin::Place(tail) => Step::Do(
                ManagerAction::Global(
                    Access::Store(
                        GlobalCell::Queue((tail % MAX_MANAGERS as u64) as usize),
                        manager as u64,
                    ),
                ),
            ),
            QueueJoin::Finished => Step::Done(()),
        }
    }

    /// Joining the queue once it has the reply to what it asked.
    pub open spec fn next(self, reply: u64) -> QueueJoin {
        match self {
            QueueJoin::Enter => QueueJoin::Place(reply),
            QueueJoin::Place(_) => QueueJoin::Finished,
            QueueJoin::Finished => QueueJoin::Finished,
        }
    }

    /// Tells what to do next.
    pub fn step(&self, manager: usize) -> (step: Step<ManagerAction, ()>)
        ensures
            step == self.asks(manager),
    {
        match self {
            QueueJoin::Enter => Step::Do(
                ManagerAction::Global(Access::FetchAdd(GlobalCell::QueueTail, 1)),
            ),
            QueueJoin::Place(tail) => Step::Do(
                ManagerAction::Global(
                    Access::Store(
                        GlobalCell::Queue((*tail % MAX_MANAGERS as u64) as usize),
                        manager as u64,
                    ),
                ),
            ),
            QueueJoin::Finished => Step::Done(()),
        }
    }

    /// Takes the reply to what was asked.
    pub fn advance(&mut self, reply: u64)
        ensures
            *final(self) == old(self).next(reply),
    {
        let join = *self;
        match join {
            QueueJoin::Enter => {
                *self = QueueJoin::Place(reply);
            },
            QueueJoin::Place(_) => {
                *self = QueueJoin::Finished;
            },
            QueueJoin::Finished => {},
        }
    }
}

/// Where a [`BatonPass`] stands.
#[derive(Debug, Clone, Copy, PartialEq, Eq, Structural)]
pub enum BatonPhase {
    /// The manager queues up again before it lets the turn go.
    Join(QueueJoin),
    ReadHead,
    /// Place in the queue, then how many places were passed over.
    ReadCandidate(u64, u64),
    /// As above, then the manager that stands there.
    CheckActive(u64, u64, u64),
    /// Place in the queue, then who gets the turn.
    StoreHead(u64, u64),
    StoreOwner(u64),
    Signal,
    Wake,
    Finished,
}

/// Hands the turn to the next manager in the queue that is active.
#[derive(Debug, Clone, Copy, PartialEq, Eq, Structural)]
pub struct BatonPass {
    pub manager: usize,
    pub phase: BatonPhase,
}

impl BatonPass {
    /// A hand-over that has not begun.
    pub open spec fn initial(manager: usize) -> BatonPass {
        BatonPass { manager, phase: BatonPhase::Join(QueueJoin::Enter) }
    }

    /// The hand-over in another phase.
    pub open spec fn at(self, phase: BatonPhase) -> BatonPass {
        BatonPass { phase, ..self }
    }

    /// What the hand-over asks for.
    pub open spec fn asks(self) -> Step<ManagerAction, ()> {
        match self.phase {
            BatonPhase::Join(join) => match join.asks(self.manager) {
                Step::Do(action) => Step::Do(action),
                _ => Step::Do(ManagerAction::Global(Access::Load(GlobalCell::QueueHead))),
            },
            BatonPhase::ReadHead => Step::Do(
                ManagerAction::Global(Access::Load(GlobalCell::QueueHead)),
            ),
            BatonPhase::ReadCandidate(head, _) => Step::Do(
                ManagerAction::Global(
                    Access::Load(GlobalCell::Queue((head % MAX_MANAGERS as u64) as usize)),
                ),
            ),
            BatonPhase::CheckActive(_, _, candidate) => Step::Do(
                ManagerAction::Global(Access::Load(GlobalCell::SlotActive(candidate as usize))),
            ),
            BatonPhase::StoreHead(head, _) => Step::Do(
                ManagerAction::Global(Access::Store(GlobalCell::QueueHead, head % SPAN_32)),
            ),
            BatonPhase::StoreOwner(owner) => Step::Do(
                ManagerAction::Global(Access::Store(GlobalCell::LockOwner, owner)),
            ),
            BatonPhase::Signal => Step::Do(
                ManagerAction::Global(Access::FetchAdd(GlobalCell::SignalCounter, 1)),
            ),
            BatonPhase::Wake => Step::Do(ManagerAction::WakeGlobal),
            BatonPhase::Finished => Step::Done(()),
        }
    }

    /// The hand-over behind a place that nobody active stands at. After a whole
    /// round the manager keeps the turn.
    pub open spec fn past_place(self, head: u64, tries: u64) -> BatonPass {
        let further = Width::W64.fit(head + 1);
        if tries + 1 < MAX_MANAGERS {
            self.at(BatonPhase::ReadCandidate(further, (tries + 1) as u64))
        } else {
            self.at(BatonPhase::StoreHead(further, self.manager as u64))
        }
    }

    /// The hand-over once it has the reply to what it asked.
    pub open spec fn next(self, reply: u64) -> BatonPass {
        match self.phase {
            BatonPhase::Join(join) => match join.next(reply) {
                QueueJoin::Finished => self.at(BatonPhase::ReadHead),
                further => self.at(BatonPhase::Join(further)),
            },
            BatonPhase::ReadHead => self.at(
                BatonPhase::ReadCandidate((reply % SPAN_32 + 1) as u64, 0),
            ),
            BatonPhase::ReadCandidate(head, tries) => if reply < MAX_MANAGERS {
                self.at(BatonPhase::CheckActive(head, tries, reply))
            } else {
                self.past_place(head, tries)
            },
            BatonPhase::CheckActive(head, tries, candidate) => if reply == 1 {
                self.at(BatonPhase::StoreHead(head, candidate))
            } else {
                self.past_place(head, tries)
            },
            BatonPhase::StoreHead(_, owner) => self.at(BatonPhase::StoreOwner(owner)),
            BatonPhase::StoreOwner(_) => self.at(BatonPhase::Signal),
            BatonPhase::Signal => self.at(BatonPhase::Wake),
            BatonPhase::Wake => self.at(BatonPhase::Finished),
            BatonPhase::Finished => self,
        }
    }

    /// Starts a hand-over.
    pub fn start(manager: usize) -> (pass: BatonPass)
        ensures
            pass == BatonPass::initial(manager),
    {
        BatonPass { manager, phase: BatonPhase::Join(QueueJoin::Enter) }
    }

    /// Tells what to do next.
    pub fn step(&self) -> (step: Step<ManagerAction, ()>)
        ensures
            step == self.asks(),
    {
        let access = match &self.phase {
            BatonPhase::Join(join) => {
                return match join.step(self.manager) {
                    Step::Do(action) => Step::Do(action),
                    _ => Step::Do(ManagerAction::Global(Access::Load(GlobalCell::QueueHead))),
                };
            },
            BatonPhase::ReadHead => Access::Load(GlobalCell::QueueHead),
            BatonPhase::ReadCandidate(head, _) => Access::Load(
                GlobalCell::Queue((*head % MAX_MANAGERS as u64) as usize),
            ),
            BatonPhase::CheckActive(_, _, candidate) => Access::Load(
                GlobalCell::SlotActive(*candidate as usize),
            ),
            BatonPhase::StoreHead(head, _) => Access::Store(GlobalCell::QueueHead, *head % SPAN_32),
            BatonPhase::StoreOwner(owner) => Access::Store(GlobalCell::LockOwner, *owner),
            BatonPhase::Signal => Access::FetchAdd(GlobalCell::SignalCounter, 1),
            BatonPhase::Wake => {
                return Step::Do(ManagerAction::WakeGlobal);
            },
            BatonPhase::Finished => {
                return Step::Done(());
            },
        };
        Step::Do(ManagerAction::Global(access))
    }

    fn leave_place(&mut self, head: u64, tries: u64)
        ensures
            *final(self) == old(self).past_place(head, tries),
    {
        let further: u64 = Width::W64.wrap(head as u128 + 1);
        if tries < MAX_MANAGERS as u64 - 1 {
            self.phase = BatonPhase::ReadCandidate(further, tries + 1);
        } else {
            self.phase = BatonPhase::StoreHead(further, self.manager as u64);
        }
    }

    /// Takes the reply to what was asked.
    pub fn advance(&mut self, reply: u64)
        ensures
            *final(self) == old(self).next(reply),
    {
        match self.phase {
            BatonPhase::Join(join) => {
                let mut further = join;
                further.advance(reply);
                self.phase = match further {
                    QueueJoin::Finished => BatonPhase::ReadHead,
                    _ => BatonPhase::Join(further),
                };
            },
            BatonPhase::ReadHead => {
                self.phase = BatonPhase::ReadCandidate(reply % SPAN_32 + 1, 0);
            },
            BatonPhase::ReadCandidate(head, tries) => {
                if reply < MAX_MANAGERS as u64 {
                    self.phase = BatonPhase::CheckActive(head, tries, reply);
                } else {
                    self.leave_place(head, tries);
                }
            },
            BatonPhase::CheckActive(head, tries, candidate) => {
                if reply == 1 {
                    self.phase = BatonPhase::StoreHead(head, candidate);
                } else {
                    self.leave_place(head, tries);
                }
            },
            BatonPhase::StoreHead(_, owner) => {
                self.phase = BatonPhase::StoreOwner(owner);
            },
            BatonPhase::StoreOwner(_) => {
                self.phase = BatonPhase::Signal;
            },
            BatonPhase::Signal => {
                self.phase = BatonPhase::Wake;
            },
            BatonPhase::Wake => {
                self.phase = BatonPhase::Finished;
            },
            BatonPhase::Finished => {},
        }
    }
}

/// The registry once a manager has joined the queue: it stands where the tail
/// was, and the tail is one further.
pub open spec fn joined(registry: Map<GlobalCell, u64>, manager: usize) -> Map<GlobalCell, u64> {
    let tail = registry[GlobalCell::QueueTail];
    registry.insert(GlobalCell::QueueTail, Width::W32.fit(tail + 1)).insert(
        GlobalCell::Queue((tail % MAX_MANAGERS as u64) as usize),
        manager as u64,
    )
}

/// Who stands at a place of the queue. Places repeat, as the queue is a ring.
pub open spec fn standing_at(registry: Map<GlobalCell, u64>, place: int) -> u64 {
    registry[GlobalCell::Queue((place % MAX_MANAGERS as int) as usize)]
}

/// Whether an active manager stands at a place of the queue.
pub open spec fn ready_at(registry: Map<GlobalCell, u64>, place: int) -> bool {
    let candidate = standing_at(registry, place);
    candidate < MAX_MANAGERS && registry[GlobalCell::SlotActive(candidate as usize)] == 1
}

/// How many places behind `place` the first active manager stands, from a
/// distance on; a whole round when there is none.
pub open spec fn first_ready(registry: Map<GlobalCell, u64>, place: int, from: nat) -> nat
    decreases MAX_MANAGERS - from,
{
    if from >= MAX_MANAGERS {
        MAX_MANAGERS as nat
    } else if ready_at(registry, place + from) {
        from
    } else {
        first_ready(registry, place, from + 1)
    }
}

/// Who gets the turn from a manager that has joined the queue again: the first
/// active manager behind the head, or the manager itself when there is none.
pub open spec fn next_owner(registry: Map<GlobalCell, u64>, manager: usize) -> u64 {
    let place = registry[GlobalCell::QueueHead] + 1;
    let skipped = first_ready(registry, place, 0);
    if skipped < MAX_MANAGERS {
        standing_at(registry, place + skipped)
    } else {
        manager as u64
    }
}

/// Where the head of the queue moves: to the place of who gets the turn.
pub open spec fn next_head(registry: Map<GlobalCell, u64>) -> u64 {
    let place = registry[GlobalCell::QueueHead] + 1;
    Width::W32.fit(place + first_ready(registry, place, 0))
}

/// The registry once a manager has handed the turn on.
pub open spec fn passed(registry: Map<GlobalCell, u64>, manager: usize) -> Map<GlobalCell, u64> {
    let queued = joined(registry, manager);
    queued.insert(GlobalCell::QueueHead, next_head(queued)).insert(
        GlobalCell::LockOwner,
        next_owner(queued, manager),
    ).insert(
        GlobalCell::SignalCounter,
        Width::W32.fit(registry[GlobalCell::SignalCounter] + 1),
    )
}

impl BatonPass {
    spec fn runs(self, start: Map<GlobalCell, u64>, registry: Map<GlobalCell, u64>) -> bool {
        let tail = start[GlobalCell::QueueTail];
        let queued = joined(start, self.manager);
        let place = queued[GlobalCell::QueueHead] + 1;
        let moved = queued.insert(GlobalCell::QueueHead, next_head(queued));
        let given = moved.insert(GlobalCell::LockOwner, next_owner(queued, self.manager));
        match self.phase {
            BatonPhase::Join(QueueJoin::Enter) => registry == start,
            BatonPhase::Join(QueueJoin::Place(seen)) => {
                &&& seen == tail
                &&& registry == start.insert(GlobalCell::QueueTail, Width::W32.fit(tail + 1))
            },
            BatonPhase::Join(QueueJoin::Finished) => false,
            BatonPhase::ReadHead => registry == queued,
            BatonPhase::ReadCandidate(head, tries) => {
                &&& registry == queued
                &&& tries < MAX_MANAGERS
                &&& head == place + tries
                &&& first_ready(queued, place, 0) == first_ready(queued, place, tries as nat)
            },
            BatonPhase::CheckActive(head, tries, candidate) => {
                &&& registry == queued
                &&& tries < MAX_MANAGERS
                &&& head == place + tries
                &&& candidate < MAX_MANAGERS
                &&& candidate == standing_at(queued, head as int)
                &&& first_ready(queued, place, 0) == first_ready(queued, place, tries as nat)
            },
            BatonPhase::StoreHead(head, owner) => {
                &&& registry == queued
                &&& head == place + first_ready(queued, place, 0)
                &&& owner == next_owner(queued, self.manager)
                &&& owner < MAX_MANAGERS
            },
            BatonPhase::StoreOwner(owner) => {
                &&& registry == moved
                &&& owner == next_owner(queued, self.manager)
                &&& owner < MAX_MANAGERS
            },
            BatonPhase::Signal => registry == given,
            BatonPhase::Wake => registry == passed(start, self.manager),
            BatonPhase::Finished => registry == passed(start, self.manager),
        }
    }

    spec fn remaining(self) -> int {
        match self.phase {
            BatonPhase::Join(QueueJoin::Enter) => 203,
            BatonPhase::Join(_) => 202,
            BatonPhase::ReadHead => 201,
            BatonPhase::ReadCandidate(_, tries) => 10 + (MAX_MANAGERS - tries) * 2,
            BatonPhase::CheckActive(_, tries, _) => 9 + (MAX_MANAGERS - tries) * 2,
            BatonPhase::StoreHead(_, _) => 4,
            BatonPhase::StoreOwner(_) => 3,
            BatonPhase::Signal => 2,
            BatonPhase::Wake => 1,
            BatonPhase::Finished => 0,
        }
    }
}

proof fn lemma_pass_turn(
    pass: BatonPass,
    start: Map<GlobalCell, u64>,
    registry: Map<GlobalCell, u64>,
)
    requires
        pass.manager < MAX_MANAGERS,
        pass.runs(start, registry),
        pass.asks() is Do,
        forall|c: GlobalCell| c.valid() <==> #[trigger] start.dom().contains(c),
        forall|c: GlobalCell| c.valid() ==> #[trigger] start[c] < c.width().span(),
    ensures
        ({
            let action = pass.asks()->Do_0;
            let after = pass.next(crate::manager::lone_reply(registry, 0, action));
            &&& action matches ManagerAction::Global(access) ==> access.cell().valid()
            &&& action is Global || action is WakeGlobal
            &&& after.runs(start, crate::manager::lone_effect(registry, action))
            &&& after.manager == pass.manager
            &&& 0 <= after.remaining() < pass.remaining()
        }),
{
    let action = pass.asks()->Do_0;
    let reply = crate::manager::lone_reply(registry, 0, action);
    let changed = crate::manager::lone_effect(registry, action);
    let queued = joined(start, pass.manager);
    let place = queued[GlobalCell::QueueHead] + 1;
    assert(GlobalCell::QueueHead.valid());
    assert(start[GlobalCell::QueueHead] < GlobalCell::QueueHead.width().span());
    assert(place <= SPAN_32);
    crate::access::lemma_fit_keeps(Width::W32, pass.manager as int);
    reveal_with_fuel(first_ready, 2);
    match pass.phase {
        BatonPhase::ReadHead => {
            assert(changed =~= registry);
        },
        BatonPhase::ReadCandidate(head, tries) => {
            assert(changed =~= registry);
            assert(head % MAX_MANAGERS as u64 == (place + tries) % MAX_MANAGERS as int);
            crate::access::lemma_fit_keeps(Width::W64, head + 1);
            assert(reply == standing_at(queued, head as int));
        },
        BatonPhase::CheckActive(head, tries, candidate) => {
            assert(changed =~= registry);
            crate::access::lemma_fit_keeps(Width::W64, head + 1);
        },
        BatonPhase::StoreHead(head, owner) => {
            crate::access::lemma_fit_keeps(Width::W32, (head % SPAN_32) as int);
        },
        BatonPhase::StoreOwner(owner) => {
            crate::access::lemma_fit_keeps(Width::W32, owner as int);
        },
        _ => {},
    }
}

impl ContainerManager {
    /// Puts the manager at the end of the queue, in a registry that is held
    /// alone.
    pub fn join_global_queue(&self, registry: &mut GlobalRegistry)
        requires
            self.wf(),
        ensures
            final(registry)@ == joined(old(registry)@, self.my_global_idx),
    {
        let ghost before = registry@;
        let mut join = QueueJoin::Enter;
        assert(GlobalCell::QueueTail.valid());
        loop
            invariant
                self.wf(),
                before == old(registry)@,
                match join {
                    QueueJoin::Enter => registry@ == before,
                    QueueJoin::Place(tail) => {
                        &&& tail == before[GlobalCell::QueueTail]
                        &&& registry@ == before.insert(
                            GlobalCell::QueueTail,
                            Width::W32.fit(tail + 1),
                        )
                    },
                    QueueJoin::Finished => registry@ == joined(before, self.my_global_idx),
                },
            decreases
                match join {
                    QueueJoin::Enter => 2int,
                    QueueJoin::Place(_) => 1,
                    QueueJoin::Finished => 0,
                },
        {
            match join.step(self.my_global_idx) {
                Step::Do(ManagerAction::Global(access)) => {
                    proof {
                        crate::access::lemma_fit_keeps(Width::W32, self.my_global_idx as int);
                    }
                    let reply: u64 = registry.perform(access);
                    join.advance(reply);
                },
                _ => {
                    return ;
                },
            }
        }
    }

    /// Hands the turn on, in a registry that is held alone.
    pub fn pass_baton(&self, registry: &mut GlobalRegistry)
        requires
            self.wf(),
        ensures
            final(registry)@ == passed(old(registry)@, self.my_global_idx),
    {
        let ghost before = registry@;
        let mut pass = BatonPass::start(self.my_global_idx);
        loop
            invariant
                self.wf(),
                before == old(registry)@,
                pass.manager == self.my_global_idx,
                forall|c: GlobalCell| c.valid() <==> #[trigger] before.dom().contains(c),
                forall|c: GlobalCell| c.valid() ==> #[trigger] before[c] < c.width().span(),
                pass.runs(before, registry@),
            decreases pass.remaining(),
        {
            proof {
                if pass.asks() is Do {
                    lemma_pass_turn(pass, before, registry@);
                }
            }
            match pass.step() {
                Step::Do(ManagerAction::Global(access)) => {
                    let reply: u64 = registry.perform(access);
                    pass.advance(reply);
                },
                Step::Do(ManagerAction::WakeGlobal) => {
                    pass.advance(0);
                },
                Step::Done(_) => {
                    return ;
                },
                _ => {
                    assert(false);
                    return ;
                },
            }
        }
    }
}

proof fn lemma_first_ready(registry: Map<GlobalCell, u64>, place: int, from: nat)
    requires
        from <= MAX_MANAGERS,
    ensures
        from <= first_ready(registry, place, from) <= MAX_MANAGERS,
        first_ready(registry, place, from) < MAX_MANAGERS ==> ready_at(
            registry,
            place + first_ready(registry, place, from),
        ),
        forall|k: nat|
            from <= k < MAX_MANAGERS && #[trigger] ready_at(registry, place + k) ==> first_ready(
                registry,
                place,
                from,
            ) <= k,
    decreases MAX_MANAGERS - from,
{
    if from < MAX_MANAGERS && !ready_at(registry, place + from) {
        lemma_first_ready(registry, place, from + 1);
    }
}

/// An active manager always hands the turn to an active manager: at the latest
/// it finds itself, as it has joined the queue again.
pub proof fn law_turn_goes_to_active(registry: Map<GlobalCell, u64>, manager: usize)
    requires
        manager < MAX_MANAGERS,
        registry[GlobalCell::SlotActive(manager)] == 1,
        registry[GlobalCell::QueueTail] < Width::W32.span(),
    ensures
        ({
            let after = passed(registry, manager);
            let owner = after[GlobalCell::LockOwner];
            owner < MAX_MANAGERS && after[GlobalCell::SlotActive(owner as usize)] == 1
        }),
{
    let queued = joined(registry, manager);
    let tail = registry[GlobalCell::QueueTail] as int;
    let place = queued[GlobalCell::QueueHead] + 1;
    let k = ((tail - place) % (MAX_MANAGERS as int)) as nat;
    assert((place + k) % (MAX_MANAGERS as int) == tail % (MAX_MANAGERS as int));
    assert(standing_at(queued, place + k) == manager);
    assert(ready_at(queued, place + k));
    lemma_first_ready(queued, place, 0);
}

/// The manager next in the queue gets the turn if it is active.
pub proof fn law_next_in_queue_gets_turn(registry: Map<GlobalCell, u64>, manager: usize)
    requires
        ready_at(joined(registry, manager), registry[GlobalCell::QueueHead] + 1),
    ensures
        passed(registry, manager)[GlobalCell::LockOwner] == standing_at(
            joined(registry, manager),
            registry[GlobalCell::QueueHead] + 1,
        ),
        passed(registry, manager)[GlobalCell::QueueHead] == Width::W32.fit(
            registry[GlobalCell::QueueHead] + 1,
        ),
{
    let queued = joined(registry, manager);
    assert(queued[GlobalCell::QueueHead] == registry[GlobalCell::QueueHead]);
    assert(ready_at(queued, registry[GlobalCell::QueueHead] + 1 + 0));
}

/// No active manager in the queue is passed over: with every hand-over it either
/// gets the turn or stands nearer to the head. `distance` is how far behind the
/// head it stands, at a place that the hand-over does not write.
pub proof fn law_nobody_is_passed_over(
    registry: Map<GlobalCell, u64>,
    manager: usize,
    waiting: u64,
    distance: int,
)
    requires
        1 <= distance <= MAX_MANAGERS,
        waiting < MAX_MANAGERS,
        registry[GlobalCell::SlotActive(waiting as usize)] == 1,
        standing_at(registry, registry[GlobalCell::QueueHead] + distance) == waiting,
        (registry[GlobalCell::QueueHead] + distance) % (MAX_MANAGERS as int)
            != registry[GlobalCell::QueueTail] as int % (MAX_MANAGERS as int),
    ensures
        ({
            let after = passed(registry, manager);
            ||| after[GlobalCell::LockOwner] == waiting
            ||| exists|nearer: int|
                1 <= nearer < distance && #[trigger] standing_at(
                    after,
                    after[GlobalCell::QueueHead] + nearer,
                ) == waiting
        }),
{
    let queued = joined(registry, manager);
    let after = passed(registry, manager);
    let head = registry[GlobalCell::QueueHead] as int;
    let place = queued[GlobalCell::QueueHead] + 1;
    assert(place == head + 1);
    let k = (distance - 1) as nat;
    assert(place + k == head + distance);
    assert(standing_at(queued, place + k) == waiting);
    assert(ready_at(queued, place + k));
    lemma_first_ready(queued, place, 0);
    let skipped = first_ready(queued, place, 0);
    if skipped == k {
        assert(after[GlobalCell::LockOwner] == waiting);
    } else {
        let nearer = distance - 1 - skipped;
        let moved = place + skipped;
        assert(after[GlobalCell::QueueHead] == moved % 0x1_0000_0000);
        assert((moved % 0x1_0000_0000 + nearer) % 64 == (moved + nearer) % 64) by (nonlinear_arith)
        ;
        assert(moved + nearer == head + distance);
        assert(standing_at(after, after[GlobalCell::QueueHead] + nearer) == waiting);
    }
}

/// Whether an active manager waits in the queue, some places behind the head and
/// before the tail.
pub open spec fn in_line(registry: Map<GlobalCell, u64>, waiting: u64, distance: int) -> bool {
    let head = registry[GlobalCell::QueueHead];
    let length = Width::W32.fit(registry[GlobalCell::QueueTail] - head);
    &&& waiting < MAX_MANAGERS
    &&& registry[GlobalCell::SlotActive(waiting as usize)] == 1
    &&& 1 <= distance < length <= MAX_MANAGERS
    &&& standing_at(registry, head + distance) == waiting
}

/// The registry after a number of hand-overs, each by the owner of the turn.
pub open spec fn handed_on(registry: Map<GlobalCell, u64>, times: nat) -> Map<GlobalCell, u64>
    decreases times,
{
    if times == 0 {
        registry
    } else {
        handed_on(
            passed(registry, registry[GlobalCell::LockOwner] as usize),
            (times - 1) as nat,
        )
    }
}

proof fn lemma_line_moves(
    registry: Map<GlobalCell, u64>,
    manager: usize,
    waiting: u64,
    distance: int,
) -> (nearer: int)
    requires
        in_line(registry, waiting, distance),
        passed(registry, manager)[GlobalCell::LockOwner] != waiting,
    ensures
        nearer < distance,
        in_line(passed(registry, manager), waiting, nearer),
{
    let queued = joined(registry, manager);
    let after = passed(registry, manager);
    let head = registry[GlobalCell::QueueHead] as int;
    let tail = registry[GlobalCell::QueueTail] as int;
    let length = (tail - head) % 0x1_0000_0000;
    let place = head + 1;
    let k = (distance - 1) as nat;
    assert((head + distance) % 64 != tail % 64) by (nonlinear_arith)
        requires
            length == (tail - head) % 0x1_0000_0000,
            1 <= distance < length <= 64,
    ;
    assert(standing_at(queued, place + k) == waiting);
    assert(ready_at(queued, place + k));
    lemma_first_ready(queued, place, 0);
    let skipped = first_ready(queued, place, 0) as int;
    let moved = place + skipped;
    let nearer = distance - 1 - skipped;
    assert(skipped != k);
    assert((moved % 0x1_0000_0000 + nearer) % 64 == (moved + nearer) % 64) by (nonlinear_arith);
    assert(moved + nearer == head + distance);
    assert(standing_at(after, after[GlobalCell::QueueHead] + nearer) == waiting);
    assert(((tail + 1) % 0x1_0000_0000 - moved % 0x1_0000_0000) % 0x1_0000_0000 == length
        - skipped) by (nonlinear_arith)
        requires
            length == (tail - head) % 0x1_0000_0000,
            moved == head + 1 + skipped,
            0 <= skipped < length <= 64,
    ;
    nearer
}

/// An active manager in the queue gets the turn after no more hand-overs than it
/// stands places behind the head.
pub proof fn law_everybody_gets_a_turn(
    registry: Map<GlobalCell, u64>,
    waiting: u64,
    distance: int,
)
    requires
        in_line(registry, waiting, distance),
    ensures
        exists|times: nat|
            times <= distance && #[trigger] handed_on(registry, times)[GlobalCell::LockOwner]
                == waiting,
    decreases distance,
{
    let manager = registry[GlobalCell::LockOwner] as usize;
    let after = passed(registry, manager);
    reveal_with_fuel(handed_on, 2);
    if after[GlobalCell::LockOwner] == waiting {
        assert(handed_on(registry, 1)[GlobalCell::LockOwner] == waiting);
    } else {
        let nearer = lemma_line_moves(registry, manager, waiting, distance);
        law_everybody_gets_a_turn(after, waiting, nearer);
        let times = choose|times: nat|
            times <= nearer && #[trigger] handed_on(after, times)[GlobalCell::LockOwner] == waiting;
        assert(handed_on(registry, times + 1)[GlobalCell::LockOwner] == waiting);
    }
}

/// How many places the queue has, from the head to the tail.
pub open spec fn line_length(registry: Map<GlobalCell, u64>) -> int {
    Width::W32.fit(registry[GlobalCell::QueueTail] - registry[GlobalCell::QueueHead]) as int
}

/// Whether every place of the queue is an active manager's, with the owner of the
/// turn at its head.
pub open spec fn all_in_line(registry: Map<GlobalCell, u64>) -> bool {
    let head = registry[GlobalCell::QueueHead];
    &&& 1 <= line_length(registry) <= MAX_MANAGERS
    &&& registry[GlobalCell::LockOwner] == standing_at(registry, head as int)
    &&& forall|j: int|
        0 <= j < line_length(registry) ==> #[trigger] ready_at(registry, head + j)
}

proof fn lemma_line_turns(registry: Map<GlobalCell, u64>, j: int)
    requires
        all_in_line(registry),
        0 <= j < line_length(registry),
    ensures
        ({
            let after = passed(registry, registry[GlobalCell::LockOwner] as usize);
            let head = registry[GlobalCell::QueueHead];
            let length = line_length(registry);
            &&& line_length(after) == length
            &&& after[GlobalCell::LockOwner] == standing_at(
                after,
                after[GlobalCell::QueueHead] as int,
            )
            &&& standing_at(after, after[GlobalCell::QueueHead] + j) == standing_at(
                registry,
                head + (if j + 1 < length {
                    j + 1
                } else {
                    0
                }),
            )
            &&& ready_at(after, after[GlobalCell::QueueHead] + j)
        }),
{
    let owner = registry[GlobalCell::LockOwner];
    let queued = joined(registry, owner as usize);
    let after = passed(registry, owner as usize);
    let head = registry[GlobalCell::QueueHead] as int;
    let tail = registry[GlobalCell::QueueTail] as int;
    let length = line_length(registry);
    let moved = head + 1;
    assert(ready_at(registry, head + 0));
    assert((head + length) % 64 == tail % 64) by (nonlinear_arith)
        requires
            length == (tail - head) % 0x1_0000_0000,
    ;
    assert(standing_at(queued, head + length) == owner);
    assert forall|k: int| 1 <= k < length implies #[trigger] standing_at(queued, head + k)
        == standing_at(registry, head + k) by {
        assert((head + k) % 64 != (head + length) % 64) by (nonlinear_arith)
            requires
                1 <= k < length <= 64,
        ;
    }
    if length > 1 {
        assert(ready_at(registry, head + 1));
        assert(standing_at(queued, head + 1) == standing_at(registry, head + 1));
    }
    assert(ready_at(queued, moved + 0));
    assert(first_ready(queued, moved, 0) == 0);
    assert(after[GlobalCell::QueueHead] == moved % 0x1_0000_0000);
    assert((moved % 0x1_0000_0000) % 64 == moved % 64) by (nonlinear_arith);
    assert((moved % 0x1_0000_0000 + j) % 64 == (moved + j) % 64) by (nonlinear_arith);
    assert(((tail + 1) % 0x1_0000_0000 - moved % 0x1_0000_0000) % 0x1_0000_0000 == length)
        by (nonlinear_arith)
        requires
            length == (tail - head) % 0x1_0000_0000,
            moved == head + 1,
    ;
    assert(standing_at(after, after[GlobalCell::QueueHead] + j) == standing_at(
        queued,
        head + (j + 1),
    ));
    if j + 1 < length {
        assert(ready_at(registry, head + (j + 1)));
    } else {
        assert(standing_at(queued, head + length) == standing_at(registry, head + 0));
    }
}

/// Active managers take strict turns: however often the turn is handed on, its
/// owner is the manager that stood that many places behind the head at first,
/// where the count starts over after the last one.
pub proof fn law_turns_go_round(registry: Map<GlobalCell, u64>, times: nat)
    requires
        all_in_line(registry),
    ensures
        handed_on(registry, times)[GlobalCell::LockOwner] == standing_at(
            registry,
            registry[GlobalCell::QueueHead] + times as int % line_length(registry),
        ),
    decreases times,
{
    let head = registry[GlobalCell::QueueHead] as int;
    let length = line_length(registry);
    if times == 0 {
        assert(0int % length == 0) by (nonlinear_arith)
            requires
                length >= 1,
        ;
    } else {
        let after = passed(registry, registry[GlobalCell::LockOwner] as usize);
        lemma_line_turns(registry, 0);
        assert forall|j: int| 0 <= j < line_length(after) implies #[trigger] ready_at(
            after,
            after[GlobalCell::QueueHead] + j,
        ) by {
            lemma_line_turns(registry, j);
        }
        law_turns_go_round(after, (times - 1) as nat);
        let j = (times - 1) % length;
        assert(0 <= j < length && times as int % length == (if j + 1 < length {
            j + 1
        } else {
            0
        })) by (nonlinear_arith)
            requires
                length >= 1,
                times >= 1,
                j == (times - 1) % length,
        ;
        lemma_line_turns(registry, j);
    }
}

/// Who stands at a place of the queue once a manager has joined it at the tail. The
/// queue is a ring of 64 places.
pub open spec fn queued_at(registry: Map<GlobalCell, u64>, manager: usize, place: int) -> u64 {
    if place % 64 == registry[GlobalCell::QueueTail] as int % 64 {
        manager as u64
    } else {
        registry[GlobalCell::Queue((place % 64) as usize)]
    }
}

/// A manager joins the queue where the tail is, and moves the tail one further.
/// Neither the order of the others nor any other word changes.
pub proof fn law_queue_is_joined_at_tail(registry: Map<GlobalCell, u64>, manager: usize)
    requires
        registry[GlobalCell::QueueTail] < 0x1_0000_0000,
    ensures
        ({
            let tail = registry[GlobalCell::QueueTail];
            let place = GlobalCell::Queue((tail % 64) as usize);
            let after = joined(registry, manager);
            &&& after[place] == manager
            &&& after[GlobalCell::QueueTail] == if tail < 0xFFFF_FFFF {
                tail + 1
            } else {
                0
            }
            &&& forall|c: GlobalCell|
                c != place && !(c is QueueTail) ==> #[trigger] after[c] == registry[c]
        }),
{
}

/// To join the queue a manager first moves the tail one further, and then takes the
/// place that the tail showed before, whatever others do meanwhile.
pub proof fn law_tail_gives_place(manager: usize, tail: u64, reply: u64)
    ensures
        QueueJoin::Enter.asks(manager) == Step::<ManagerAction, ()>::Do(
            ManagerAction::Global(Access::FetchAdd(GlobalCell::QueueTail, 1)),
        ),
        QueueJoin::Enter.next(tail).asks(manager) == Step::<ManagerAction, ()>::Do(
            ManagerAction::Global(
                Access::Store(GlobalCell::Queue((tail % 64) as usize), manager as u64),
            ),
        ),
        QueueJoin::Enter.next(tail).next(reply).asks(manager) is Done,
{
}

/// A hand-over writes the manager at the tail, the tail, the head, the owner and the
/// signal, which it counts up by one, and nothing else.
pub proof fn law_hand_over_touches_little(registry: Map<GlobalCell, u64>, manager: usize)
    requires
        registry[GlobalCell::QueueTail] < 0x1_0000_0000,
        registry[GlobalCell::SignalCounter] < 0x1_0000_0000,
    ensures
        ({
            let tail = registry[GlobalCell::QueueTail];
            let signal = registry[GlobalCell::SignalCounter];
            let place = GlobalCell::Queue((tail % 64) as usize);
            let after = passed(registry, manager);
            &&& after[place] == manager
            &&& after[GlobalCell::QueueTail] == if tail < 0xFFFF_FFFF {
                tail + 1
            } else {
                0
            }
            &&& after[GlobalCell::SignalCounter] == if signal < 0xFFFF_FFFF {
                signal + 1
            } else {
                0
            }
            &&& forall|c: GlobalCell|
                c != place && !(c is QueueTail) && !(c is QueueHead) && !(c is LockOwner) && !(
                c is SignalCounter) ==> #[trigger] after[c] == registry[c]
        }),
{
}

/// The turn goes to the first active manager behind the head of the queue: to the
/// one some places behind it where nobody stands between who is one of the 64
/// managers and active. The head moves to that place.
pub proof fn law_first_active_gets_turn(
    registry: Map<GlobalCell, u64>,
    manager: usize,
    behind: nat,
)
    requires
        manager < 64,
        behind < 64,
        registry[GlobalCell::QueueTail] < 0x1_0000_0000,
        ({
            let owner = queued_at(
                registry,
                manager,
                registry[GlobalCell::QueueHead] + 1 + behind,
            );
            owner < 64 && registry[GlobalCell::SlotActive(owner as usize)] == 1
        }),
        forall|j: nat|
            j < behind ==> {
                let other = #[trigger] queued_at(
                    registry,
                    manager,
                    registry[GlobalCell::QueueHead] + 1 + j,
                );
                other >= 64 || registry[GlobalCell::SlotActive(other as usize)] != 1
            },
    ensures
        passed(registry, manager)[GlobalCell::LockOwner] == queued_at(
            registry,
            manager,
            registry[GlobalCell::QueueHead] + 1 + behind,
        ),
        passed(registry, manager)[GlobalCell::QueueHead] == (registry[GlobalCell::QueueHead] + 1
            + behind) % 0x1_0000_0000,
{
    let queued = joined(registry, manager);
    let place = registry[GlobalCell::QueueHead] + 1;
    assert(queued[GlobalCell::QueueHead] + 1 == place);
    assert forall|j: nat| j < 64 implies standing_at(queued, place + j) == #[trigger] queued_at(
        registry,
        manager,
        place + j,
    ) by {}
    assert(standing_at(queued, place + behind) == queued_at(registry, manager, place + behind));
    assert(ready_at(queued, place + behind));
    lemma_first_ready(queued, place, 0);
    let skipped = first_ready(queued, place, 0);
    if skipped < behind {
        assert(standing_at(queued, place + skipped) == queued_at(
            registry,
            manager,
            place + skipped,
        ));
        assert(ready_at(queued, place + skipped));
    }
}

/// Where none of the 64 places holds an active manager, the one that hands the turn
/// on keeps it, and the head goes round once.
pub proof fn law_turn_stays_without_active(registry: Map<GlobalCell, u64>, manager: usize)
    requires
        manager < 64,
        registry[GlobalCell::QueueTail] < 0x1_0000_0000,
        forall|j: nat|
            j < 64 ==> {
                let other = #[trigger] queued_at(
                    registry,
                    manager,
                    registry[GlobalCell::QueueHead] + 1 + j,
                );
                other >= 64 || registry[GlobalCell::SlotActive(other as usize)] != 1
            },
    ensures
        passed(registry, manager)[GlobalCell::LockOwner] == manager,
        passed(registry, manager)[GlobalCell::QueueHead] == (registry[GlobalCell::QueueHead] + 65)
            % 0x1_0000_0000,
{
    let queued = joined(registry, manager);
    let place = registry[GlobalCell::QueueHead] + 1;
    assert(queued[GlobalCell::QueueHead] + 1 == place);
    lemma_first_ready(queued, place, 0);
    let skipped = first_ready(queued, place, 0);
    if skipped < 64 {
        assert(standing_at(queued, place + skipped) == queued_at(
            registry,
            manager,
            place + skipped,
        ));
        assert(ready_at(queued, place + skipped));
    }
}

impl BatonPass {
    /// Whether the hand-over asks for an access to the registry.
    pub open spec fn asks_for(self, access: Access<GlobalCell>) -> bool {
        self.asks() == Step::<ManagerAction, ()>::Do(ManagerAction::Global(access))
    }

    /// Whether the hand-over gives the turn to a manager at a place, as its last
    /// actions, and wakes those who wait.
    pub open spec fn gives(self, head: int, owner: u64) -> bool {
        &&& self.asks_for(Access::Store(GlobalCell::QueueHead, (head % 0x1_0000_0000) as u64))
        &&& forall|r: u64|
            {
                let moved = #[trigger] self.next(r);
                &&& moved.asks_for(Access::Store(GlobalCell::LockOwner, owner))
                &&& moved.next(r).asks_for(Access::FetchAdd(GlobalCell::SignalCounter, 1))
                &&& moved.next(r).next(r).asks() == Step::<ManagerAction, ()>::Do(
                    ManagerAction::WakeGlobal,
                )
                &&& moved.next(r).next(r).next(r).asks() is Done
            }
    }

    /// Whether the hand-over looks at a place of the queue, with some passed over.
    pub open spec fn looks_at(self, head: int, passed_over: int) -> bool {
        &&& self.phase matches BatonPhase::ReadCandidate(place, tries) && place == head && tries
            == passed_over
        &&& self.asks_for(Access::Load(GlobalCell::Queue((head % 64) as usize)))
    }
}

/// Whatever others do meanwhile, a hand-over looks at one place after the other, for
/// 64 places at most. It gives the turn to the manager at the place where the word
/// it reads is below 64 and the active word of that manager is 1, and to its own
/// manager behind the last place.
pub proof fn law_hand_over_goes_along_queue(
    pass: BatonPass,
    head: u64,
    passed_over: u64,
    candidate: u64,
    active: u64,
)
    requires
        pass.looks_at(head as int, passed_over as int),
        passed_over < 64,
        head < 0xFFFF_FFFF_FFFF_FFFF,
    ensures
        ({
            let seen = pass.next(candidate);
            let checked = if candidate < 64 {
                seen.next(active)
            } else {
                seen
            };
            &&& candidate < 64 ==> seen.asks_for(
                Access::Load(GlobalCell::SlotActive(candidate as usize)),
            )
            &&& checked.manager == pass.manager
            &&& if candidate < 64 && active == 1 {
                checked.gives(head as int, candidate)
            } else if passed_over < 63 {
                checked.looks_at(head + 1, passed_over + 1)
            } else {
                checked.gives(head + 1, pass.manager as u64)
            }
        }),
{
    crate::access::lemma_fit_keeps(Width::W64, head + 1);
}

/// A hand-over joins the queue first, and then starts to look at the place behind
/// the head that it reads.
pub proof fn law_hand_over_starts_behind_head(
    manager: usize,
    tail: u64,
    reply: u64,
    head: u64,
)
    requires
        head < 0x1_0000_0000,
    ensures
        ({
            let start = BatonPass::initial(manager);
            let queued = start.next(tail).next(reply);
            &&& start.asks_for(Access::FetchAdd(GlobalCell::QueueTail, 1))
            &&& start.next(tail).asks_for(
                Access::Store(GlobalCell::Queue((tail % 64) as usize), manager as u64),
            )
            &&& queued.asks_for(Access::Load(GlobalCell::QueueHead))
            &&& queued.next(head).looks_at(head + 1, 0)
            &&& queued.next(head).manager == manager
        }),
{
}

} // verus!
