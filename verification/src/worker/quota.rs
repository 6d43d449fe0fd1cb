//! Reserving device memory against the container's limit.

use vstd::prelude::*;

use crate::access::{Access, Cell, Step, Width};
use crate::externed_api::{RT_ERROR_MEMORY_ALLOCATION, RT_ERROR_NONE};
use crate::liveness::ProcessTable;
use crate::shmem::{LocalCell, LocalContainerShmem, MAX_PROCESSES, NPU_DEVICE_MAX};
use crate::worker::usage::UsageScan;
use crate::worker::WorkerAction;

verus! {

/// Where a [`QuotaCheck`] stands.
#[derive(Debug, Clone, Copy, PartialEq, Eq, Structural)]
pub enum QuotaPhase {
    ReadLimit,
    /// There is a limit: correct the counter before it is used.
    Scan(u64, UsageScan),
    ReadUsed(u64),
    /// Limit, then the counter that the reservation starts from.
    Reserve(u64, u64),
    Granted,
    Refused,
    Overflowed,
}

/// Reserves device memory if the limit allows it. The result is a runtime code.
#[derive(Debug, Clone, Copy, PartialEq, Eq, Structural)]
pub struct QuotaCheck {
    pub device: usize,
    pub size: u64,
    pub phase: QuotaPhase,
}

impl QuotaCheck {
    /// A request that has not been looked at yet.
    pub open spec fn initial(device: usize, size: u64) -> QuotaCheck {
        QuotaCheck { device, size, phase: QuotaPhase::ReadLimit }
    }

    /// The check in another phase.
    pub open spec fn at(self, phase: QuotaPhase) -> QuotaCheck {
        QuotaCheck { phase, ..self }
    }

    /// What the check asks for.
    pub open spec fn asks(self) -> Step<WorkerAction, u64> {
        match self.phase {
            QuotaPhase::ReadLimit => Step::Do(
                WorkerAction::Memory(Access::Load(LocalCell::MemoryLimit)),
            ),
            QuotaPhase::Scan(_, scan) => match scan.asks() {
                Step::Do(action) => Step::Do(action),
                _ => Step::Overflow,
            },
            QuotaPhase::ReadUsed(_) => Step::Do(
                WorkerAction::Memory(Access::Load(LocalCell::MemoryUsed)),
            ),
            QuotaPhase::Reserve(_, used) => Step::Do(
                WorkerAction::Memory(
                    Access::CompareExchange(
                        LocalCell::MemoryUsed,
                        used,
                        Width::W64.fit(used + self.size),
                    ),
                ),
            ),
            QuotaPhase::Granted => Step::Done(RT_ERROR_NONE),
            QuotaPhase::Refused => Step::Done(RT_ERROR_MEMORY_ALLOCATION),
            QuotaPhase::Overflowed => Step::Overflow,
        }
    }

    /// The check once it knows how much is in use: it reserves if the sum stays
    /// within the limit.
    pub open spec fn weighed(self, limit: u64, used: u64) -> QuotaCheck {
        if used + self.size > u64::MAX {
            self.at(QuotaPhase::Overflowed)
        } else if used + self.size > limit {
            self.at(QuotaPhase::Refused)
        } else {
            self.at(QuotaPhase::Reserve(limit, used))
        }
    }

    /// The check once it has the reply to what it asked.
    pub open spec fn next(self, reply: u64) -> QuotaCheck {
        match self.phase {
            QuotaPhase::ReadLimit => if reply == 0 {
                self.at(QuotaPhase::Granted)
            } else {
                self.at(QuotaPhase::Scan(reply, UsageScan::initial(self.device)))
            },
            QuotaPhase::Scan(limit, scan) => {
                let further = scan.next(reply);
                match further.asks() {
                    Step::Do(_) => self.at(QuotaPhase::Scan(limit, further)),
                    Step::Done(_) => self.at(QuotaPhase::ReadUsed(limit)),
                    Step::Overflow => self.at(QuotaPhase::Overflowed),
                }
            },
            QuotaPhase::ReadUsed(limit) => self.weighed(limit, reply),
            QuotaPhase::Reserve(limit, used) => if reply == used {
                self.at(QuotaPhase::Granted)
            } else {
                self.weighed(limit, reply)
            },
            QuotaPhase::Granted => self,
            QuotaPhase::Refused => self,
            QuotaPhase::Overflowed => self,
        }
    }

    /// Starts a check.
    pub fn start(device: usize, size: u64) -> (check: QuotaCheck)
        ensures
            check == QuotaCheck::initial(device, size),
    {
        QuotaCheck { device, size, phase: QuotaPhase::ReadLimit }
    }

    /// Tells what to do next.
    pub fn step(&self) -> (step: Step<WorkerAction, u64>)
        ensures
            step == self.asks(),
    {
        match &self.phase {
            QuotaPhase::ReadLimit => Step::Do(
                WorkerAction::Memory(Access::Load(LocalCell::MemoryLimit)),
            ),
            QuotaPhase::Scan(_, scan) => match scan.step() {
                Step::Do(action) => Step::Do(action),
                _ => Step::Overflow,
            },
            QuotaPhase::ReadUsed(_) => Step::Do(
                WorkerAction::Memory(Access::Load(LocalCell::MemoryUsed)),
            ),
            QuotaPhase::Reserve(_, used) => Step::Do(
                WorkerAction::Memory(
                    Access::CompareExchange(
                        LocalCell::MemoryUsed,
                        *used,
                        Width::W64.wrap(*used as u128 + self.size as u128),
                    ),
                ),
            ),
            QuotaPhase::Granted => Step::Done(RT_ERROR_NONE),
            QuotaPhase::Refused => Step::Done(RT_ERROR_MEMORY_ALLOCATION),
            QuotaPhase::Overflowed => Step::Overflow,
        }
    }

    fn weigh(&mut self, limit: u64, used: u64)
        ensures
            *final(self) == old(self).weighed(limit, used),
    {
        match used.checked_add(self.size) {
            None => {
                self.phase = QuotaPhase::Overflowed;
            },
            Some(sum) => {
                if sum > limit {
                    self.phase = QuotaPhase::Refused;
                } else {
                    self.phase = QuotaPhase::Reserve(limit, used);
                }
            },
        }
    }

    /// Takes the reply to what was asked.
    pub fn advance(&mut self, reply: u64)
        ensures
            *final(self) == old(self).next(reply),
    {
        match self.phase {
            QuotaPhase::ReadLimit => {
                if reply == 0 {
                    self.phase = QuotaPhase::Granted;
                } else {
                    self.phase = QuotaPhase::Scan(reply, UsageScan::start(self.device));
                }
            },
            QuotaPhase::Scan(limit, scan) => {
                let mut further = scan;
                further.advance(reply);
                match further.step() {
                    Step::Do(_) => {
                        self.phase = QuotaPhase::Scan(limit, further);
                    },
                    Step::Done(_) => {
                        self.phase = QuotaPhase::ReadUsed(limit);
                    },
                    Step::Overflow => {
                        self.phase = QuotaPhase::Overflowed;
                    },
                }
            },
            QuotaPhase::ReadUsed(limit) => {
                self.weigh(limit, reply);
            },
            QuotaPhase::Reserve(limit, used) => {
                if reply == used {
                    self.phase = QuotaPhase::Granted;
                } else {
                    self.weigh(limit, reply);
                }
            },
            QuotaPhase::Granted => {},
            QuotaPhase::Refused => {},
            QuotaPhase::Overflowed => {},
        }
    }
}

/// Whether a request can be weighed without leaving 64 bits. Without a limit
/// nothing is added up.
pub open spec fn request_fits(
    memory: Map<LocalCell, u64>,
    live: Set<i32>,
    device: usize,
    size: u64,
) -> bool {
    memory[LocalCell::MemoryLimit] != 0 ==> {
        &&& crate::worker::usage::usage_fits(memory, live, device)
        &&& crate::worker::usage::corrected_used(memory, live, device) + size <= u64::MAX
    }
}

/// Whether a request is granted: there is no limit, or the corrected counter
/// and the request together stay within it.
pub open spec fn is_granted(
    memory: Map<LocalCell, u64>,
    live: Set<i32>,
    device: usize,
    size: u64,
) -> bool {
    let limit = memory[LocalCell::MemoryLimit];
    limit == 0 || crate::worker::usage::corrected_used(memory, live, device) + size <= limit
}

/// The segment after a request: the counter is corrected, and raised by a
/// request that is granted. Without a limit nothing changes.
pub open spec fn requested(
    memory: Map<LocalCell, u64>,
    live: Set<i32>,
    device: usize,
    size: u64,
) -> Map<LocalCell, u64> {
    let corrected = crate::worker::usage::reclaimed(memory, live, device);
    if memory[LocalCell::MemoryLimit] == 0 {
        memory
    } else if is_granted(memory, live, device, size) {
        corrected.insert(
            LocalCell::MemoryUsed,
            (corrected[LocalCell::MemoryUsed] + size) as u64,
        )
    } else {
        corrected
    }
}

impl QuotaCheck {
    /// How a check that runs alone relates to the segment it started from.
    pub open spec fn runs(
        self,
        start: Map<LocalCell, u64>,
        memory: Map<LocalCell, u64>,
        live: Set<i32>,
    ) -> bool {
        let limit = start[LocalCell::MemoryLimit];
        let corrected = crate::worker::usage::reclaimed(start, live, self.device);
        match self.phase {
            QuotaPhase::ReadLimit => memory == start,
            QuotaPhase::Scan(bound, scan) => {
                &&& bound == limit && limit != 0
                &&& scan.runs(start, memory, live, self.device)
                &&& scan.asks() is Do
                &&& 0 <= scan.remaining() <= UsageScan::initial(self.device).remaining()
            },
            QuotaPhase::ReadUsed(bound) => {
                &&& bound == limit && limit != 0
                &&& memory == corrected
            },
            QuotaPhase::Reserve(bound, used) => {
                &&& bound == limit && limit != 0
                &&& memory == corrected
                &&& used == corrected[LocalCell::MemoryUsed]
                &&& is_granted(start, live, self.device, self.size)
            },
            QuotaPhase::Granted => {
                &&& memory == requested(start, live, self.device, self.size)
                &&& is_granted(start, live, self.device, self.size)
            },
            QuotaPhase::Refused => {
                &&& memory == requested(start, live, self.device, self.size)
                &&& !is_granted(start, live, self.device, self.size)
            },
            QuotaPhase::Overflowed => false,
        }
    }

    /// How many replies a check that runs alone may still need.
    pub open spec fn remaining(self) -> int {
        match self.phase {
            QuotaPhase::ReadLimit => 4 + UsageScan::initial(self.device).remaining(),
            QuotaPhase::Scan(_, scan) => 3 + scan.remaining(),
            QuotaPhase::ReadUsed(_) => 2,
            QuotaPhase::Reserve(_, _) => 1,
            _ => 0,
        }
    }
}

/// A check that runs alone stays on course, and comes nearer to its end, with
/// every reply.
pub(crate) proof fn lemma_check_turn(
    check: QuotaCheck,
    start: Map<LocalCell, u64>,
    memory: Map<LocalCell, u64>,
    live: Set<i32>,
)
    requires
        check.runs(start, memory, live),
        check.asks() is Do,
        check.device < NPU_DEVICE_MAX,
        request_fits(start, live, check.device, check.size),
        forall|c: LocalCell| c.valid() <==> #[trigger] start.dom().contains(c),
        forall|i: usize|
            #![auto]
            i < MAX_PROCESSES ==> start[LocalCell::ProcPid(i)] < Width::W32.span(),
    ensures
        ({
            let action = check.asks()->Do_0;
            let after = check.next(crate::worker::lone_reply(memory, live, action));
            &&& action matches WorkerAction::Memory(access) ==> access.cell().valid()
            &&& action is Memory || action is CheckAlive
            &&& after.runs(start, crate::worker::lone_effect(memory, action), live)
            &&& after.device == check.device && after.size == check.size
            &&& 0 <= after.remaining() < check.remaining()
        }),
{
    let action = check.asks()->Do_0;
    let reply = crate::worker::lone_reply(memory, live, action);
    let changed = crate::worker::lone_effect(memory, action);
    let corrected = crate::worker::usage::reclaimed(start, live, check.device);
    match check.phase {
        QuotaPhase::ReadLimit => {
            assert(changed =~= memory);
            crate::worker::usage::lemma_scan_starts(start, live, check.device);
        },
        QuotaPhase::Scan(limit, scan) => {
            crate::worker::usage::lemma_scan_turn(scan, start, memory, live, check.device);
        },
        QuotaPhase::ReadUsed(_) => {
            assert(changed =~= memory);
        },
        QuotaPhase::Reserve(limit, used) => {
            assert(reply == used);
            assert(corrected[LocalCell::MemoryUsed] == crate::worker::usage::corrected_used(
                start,
                live,
                check.device,
            ));
            crate::access::lemma_fit_keeps(Width::W64, used as int);
            crate::access::lemma_fit_keeps(Width::W64, used + check.size);
            assert(changed =~= requested(start, live, check.device, check.size));
        },
        _ => {},
    }
}

/// Runs a check on a segment that is held alone.
pub(crate) fn run_check(
    shmem: &mut LocalContainerShmem,
    procs: &ProcessTable,
    device: usize,
    size: u64,
) -> (code: u64)
    requires
        device < NPU_DEVICE_MAX,
        request_fits(old(shmem)@, procs@, device, size),
    ensures
        code == if is_granted(old(shmem)@, procs@, device, size) {
            RT_ERROR_NONE
        } else {
            RT_ERROR_MEMORY_ALLOCATION
        },
        final(shmem)@ == requested(old(shmem)@, procs@, device, size),
{
    let ghost before = shmem@;
    let mut check = QuotaCheck::start(device, size);
    loop
        invariant
            before == old(shmem)@,
            device < NPU_DEVICE_MAX,
            check.device == device,
            check.size == size,
            request_fits(before, procs@, device, size),
            forall|c: LocalCell| c.valid() <==> #[trigger] before.dom().contains(c),
            forall|i: usize|
                #![auto]
                i < MAX_PROCESSES ==> before[LocalCell::ProcPid(i)] < Width::W32.span(),
            check.runs(before, shmem@, procs@),
        decreases check.remaining(),
    {
        proof {
            if check.asks() is Do {
                lemma_check_turn(check, before, shmem@, procs@);
            }
        }
        match check.step() {
            Step::Do(WorkerAction::Memory(access)) => {
                let reply: u64 = shmem.perform(access);
                check.advance(reply);
            },
            Step::Do(WorkerAction::CheckAlive(pid)) => {
                let reply: u64 = if procs.is_alive(pid) { 1 } else { 0 };
                check.advance(reply);
            },
            Step::Done(code) => {
                return code;
            },
            _ => {
                assert(false);
                return RT_ERROR_MEMORY_ALLOCATION;
            },
        }
    }
}

impl QuotaCheck {
    /// The check after a sequence of replies.
    pub open spec fn after(self, replies: Seq<u64>) -> QuotaCheck
        decreases replies.len(),
    {
        if replies.len() == 0 {
            self
        } else {
            self.after(replies.drop_last()).next(replies.last())
        }
    }

    /// How many of the replies report that the counter was raised by the
    /// request.
    pub open spec fn reservations(self, replies: Seq<u64>) -> nat
        decreases replies.len(),
    {
        if replies.len() == 0 {
            0
        } else {
            self.reservations(replies.drop_last()) + match self.after(replies.drop_last()).phase {
                QuotaPhase::Reserve(_, used) => if replies.last() == used {
                    1nat
                } else {
                    0
                },
                _ => 0,
            }
        }
    }

    /// Whether the check is one that replies can lead to.
    pub open spec fn sound(self) -> bool {
        match self.phase {
            QuotaPhase::Scan(limit, _) => limit > 0,
            QuotaPhase::ReadUsed(limit) => limit > 0,
            QuotaPhase::Reserve(limit, used) => limit > 0 && used + self.size <= limit,
            _ => true,
        }
    }
}

/// Whatever other processes do meanwhile, a check asks to reserve only what
/// keeps the counter that it saw within the limit.
pub proof fn law_check_stays_sound(device: usize, size: u64, replies: Seq<u64>)
    ensures
        QuotaCheck::initial(device, size).after(replies).sound(),
        QuotaCheck::initial(device, size).after(replies).size == size,
    decreases replies.len(),
{
    if replies.len() > 0 {
        law_check_stays_sound(device, size, replies.drop_last());
    }
}

/// Whatever the segment holds when a reservation is tried, one that succeeds
/// raises the counter by exactly the request and leaves it within the limit.
pub proof fn law_reservation_within_limit(
    check: QuotaCheck,
    limit: u64,
    used: u64,
    memory: Map<LocalCell, u64>,
)
    requires
        check.sound(),
        check.phase == QuotaPhase::Reserve(limit, used),
        memory[LocalCell::MemoryUsed] == used,
    ensures
        check.asks() matches Step::Do(action) && crate::worker::lone_effect(
            memory,
            action,
        )[LocalCell::MemoryUsed] == memory[LocalCell::MemoryUsed] + check.size,
        memory[LocalCell::MemoryUsed] + check.size <= limit,
{
}

/// Whatever other processes do meanwhile, a granted request has been reserved
/// exactly once, or there was no limit; a request that is not granted has never
/// been reserved.
pub proof fn law_granted_once(device: usize, size: u64, replies: Seq<u64>)
    ensures
        ({
            let check = QuotaCheck::initial(device, size);
            let end = check.after(replies);
            if end.phase is Granted {
                check.reservations(replies) == if replies[0] == 0 { 0nat } else { 1 }
            } else {
                check.reservations(replies) == 0
            }
        }),
        QuotaCheck::initial(device, size).after(replies).phase is Granted ==> replies.len() > 0,
        !(QuotaCheck::initial(device, size).after(replies).phase is Granted) && replies.len() > 0
            ==> replies[0] != 0,
        QuotaCheck::initial(device, size).after(replies).phase is ReadLimit <==> replies.len() == 0,
    decreases replies.len(),
{
    let check = QuotaCheck::initial(device, size);
    if replies.len() > 0 {
        let few = replies.drop_last();
        law_granted_once(device, size, few);
        if few.len() > 0 {
            assert(few[0] == replies[0]);
        }
    }
}

impl QuotaCheck {
    /// Whether the check asks for an access to the segment.
    pub open spec fn asks_for(self, access: Access<LocalCell>) -> bool {
        self.asks() == Step::<WorkerAction, u64>::Do(WorkerAction::Memory(access))
    }

    /// Whether the check does with a counter what the limit allows: it refuses what
    /// goes beyond, and tries to reserve what does not, from that very counter.
    pub open spec fn weighs(self, size: u64, limit: u64, used: u64) -> bool {
        if used + size > 0xFFFF_FFFF_FFFF_FFFF {
            self.asks() is Overflow
        } else if used + size > limit {
            self.asks() == Step::<WorkerAction, u64>::Done(207001)
        } else {
            &&& self.asks_for(
                Access::CompareExchange(LocalCell::MemoryUsed, used, (used + size) as u64),
            )
            &&& self.next(used).asks() == Step::<WorkerAction, u64>::Done(0)
        }
    }
}

/// Whatever other processes do meanwhile, a check decides by the counter that it saw
/// last: one that leaves no room refuses the request, any other is raised by the
/// request. A counter that has changed before that is weighed anew.
pub proof fn law_counter_decides(check: QuotaCheck, limit: u64, used: u64, changed: u64)
    requires
        check.phase == QuotaPhase::ReadUsed(limit),
    ensures
        check.asks_for(Access::Load(LocalCell::MemoryUsed)),
        check.next(used).weighs(check.size, limit, used),
        used + check.size <= limit && changed != used ==> check.next(used).next(changed).weighs(
            check.size,
            limit,
            changed,
        ),
{
    crate::access::lemma_fit_keeps(Width::W64, used as int);
    if used + check.size <= u64::MAX {
        crate::access::lemma_fit_keeps(Width::W64, used + check.size);
    }
    if changed + check.size <= u64::MAX {
        crate::access::lemma_fit_keeps(Width::W64, changed + check.size);
    }
}

/// A check reads the limit first. Where there is none it is over, and the request is
/// granted. Where there is one, usage is recalculated from the first slot on, and
/// then the counter is read.
pub proof fn law_limit_is_read_first(device: usize, size: u64, limit: u64)
    ensures
        QuotaCheck::initial(device, size).asks_for(Access::Load(LocalCell::MemoryLimit)),
        QuotaCheck::initial(device, size).next(0).asks() == Step::<WorkerAction, u64>::Done(0),
        limit > 0 ==> {
            let scanning = QuotaCheck::initial(device, size).next(limit);
            &&& scanning.phase == QuotaPhase::Scan(limit, UsageScan::initial(device))
            &&& scanning.asks_for(Access::Load(LocalCell::ProcPid(0)))
            &&& scanning.size == size && scanning.device == device
        },
{
}

/// While usage is recalculated the check does what the recalculation asks for. At its
/// end it reads the counter, whatever the recalculation found.
pub proof fn law_check_recalculates(check: QuotaCheck, limit: u64, scan: UsageScan, reply: u64)
    requires
        check.phase == QuotaPhase::Scan(limit, scan),
        scan.asks() is Do,
    ensures
        check.asks() == scan.asks(),
        scan.next(reply).asks() is Do ==> check.next(reply) == (QuotaCheck {
            phase: QuotaPhase::Scan(limit, scan.next(reply)),
            ..check
        }),
        scan.next(reply).asks() is Done ==> check.next(reply) == (QuotaCheck {
            phase: QuotaPhase::ReadUsed(limit),
            ..check
        }),
        scan.next(reply).asks() is Overflow ==> check.next(reply).asks() is Overflow,
{
}

proof fn lemma_check_knows_limit(device: usize, size: u64, replies: Seq<u64>)
    ensures
        ({
            let end = QuotaCheck::initial(device, size).after(replies);
            &&& end.size == size
            &&& replies.len() == 0 <==> end.phase is ReadLimit
            &&& end.phase matches QuotaPhase::Scan(limit, _) ==> limit == replies[0]
            &&& end.phase matches QuotaPhase::ReadUsed(limit) ==> limit == replies[0]
            &&& end.phase matches QuotaPhase::Reserve(limit, used) ==> limit == replies[0] && used
                == replies.last() && used + size <= limit
        }),
    decreases replies.len(),
{
    if replies.len() > 0 {
        let few = replies.drop_last();
        lemma_check_knows_limit(device, size, few);
        if few.len() > 0 {
            assert(few[0] == replies[0]);
        }
    }
}

/// Whatever other processes do meanwhile, the answer is justified by what was read:
/// the first reply is the limit and the last one is the counter. A refused request
/// would have gone beyond the limit. A granted one stays within it, unless there is
/// none.
pub proof fn law_answer_is_justified(device: usize, size: u64, replies: Seq<u64>, code: u64)
    requires
        replies.len() > 0,
        QuotaCheck::initial(device, size).after(replies.drop_last()).asks() is Do,
        QuotaCheck::initial(device, size).after(replies).asks() == Step::<WorkerAction, u64>::Done(
            code,
        ),
    ensures
        code == 0 || code == 207001,
        code == 207001 ==> replies[0] > 0 && replies.last() + size > replies[0],
        code == 0 ==> replies[0] == 0 || replies.last() + size <= replies[0],
{
    let few = replies.drop_last();
    lemma_check_knows_limit(device, size, few);
    law_check_stays_sound(device, size, few);
    if few.len() > 0 {
        assert(few[0] == replies[0]);
    }
}

/// What a request on a segment that is held alone comes to. Without a limit it is
/// granted and nothing changes. Otherwise it is granted where the counter that a
/// recalculation leaves, with the request on top, does not exceed the limit. The
/// segment is as the recalculation leaves it, but for a granted request on the
/// counter.
pub proof fn law_limit_decides(
    memory: Map<LocalCell, u64>,
    live: Set<i32>,
    device: usize,
    size: u64,
    cell: LocalCell,
)
    requires
        request_fits(memory, live, device, size),
        !(cell is MemoryUsed),
    ensures
        ({
            let limit = memory[LocalCell::MemoryLimit];
            let corrected = crate::worker::usage::reclaimed(memory, live, device);
            let counted = corrected[LocalCell::MemoryUsed];
            let after = requested(memory, live, device, size);
            &&& limit == 0 ==> is_granted(memory, live, device, size) && after == memory
            &&& limit > 0 && counted + size <= limit ==> {
                &&& is_granted(memory, live, device, size)
                &&& after[LocalCell::MemoryUsed] == counted + size
            }
            &&& limit > 0 && counted + size > limit ==> {
                &&& !is_granted(memory, live, device, size)
                &&& after[LocalCell::MemoryUsed] == counted
            }
            &&& limit > 0 ==> after[cell] == corrected[cell]
        }),
{
}

} // verus!
