//! Standing in for runtime functions that allocate and release device memory.

use vstd::prelude::*;

use crate::access::{Access, Cell, Step, Width};
use crate::externed_api::{RT_ERROR_MEMORY_ALLOCATION, RT_ERROR_NONE};
use crate::liveness::ProcessTable;
use crate::shmem::{LocalCell, LocalContainerShmem, MAX_PROCESSES, NPU_DEVICE_MAX};
use crate::worker::client::SchedulerClient;
use crate::worker::quota::QuotaCheck;
use crate::worker::token::{InnerLock, TokenWait};
use crate::worker::usage::UsageScan;
use crate::worker::WorkerAction;

verus! {

/// Where the client of a process comes from.
#[derive(Debug, Clone, Copy, PartialEq, Eq, Structural)]
pub enum ClientSource {
    /// The one that is kept.
    Kept,
    /// A fresh one: there is none yet, or it belongs to the process that forked
    /// this one.
    Fresh,
}

/// A client and the process it was made for.
#[derive(Debug)]
pub struct KeptClient {
    pub pid: i32,
    pub client: SchedulerClient,
    /// The segment that a stub comes with. Any other client shares one.
    pub own_segment: Option<LocalContainerShmem>,
}

impl KeptClient {
    /// Whether the client is a stub: it has nothing to talk to but a segment of
    /// zeros, and knows of no allocation.
    pub open spec fn is_stub(&self) -> bool {
        &&& self.client.wf()
        &&& !self.client.connected
        &&& self.client.hbm_handle_map@ == Map::<u64, u64>::empty()
        &&& self.own_segment is Some
        &&& forall|c: LocalCell| c.valid() ==> #[trigger] self.own_segment->0@[c] == 0
    }

    /// Whether this is what is kept for a process after the construction of its
    /// client: what was constructed, or a stub where that failed.
    pub open spec fn settles(&self, pid: i32, constructed: Option<SchedulerClient>) -> bool {
        &&& self.pid == pid
        &&& match constructed {
            Some(client) => self.client == client && self.own_segment is None,
            None => self.is_stub(),
        }
    }

    /// Whether this is what serves a process, given what is kept and, where a
    /// fresh client is needed, the outcome of its construction.
    pub open spec fn serves(
        &self,
        kept: Option<KeptClient>,
        pid: i32,
        constructed: Option<SchedulerClient>,
    ) -> bool {
        let kept_pid = match kept {
            Some(old) => Some(old.pid),
            None => None,
        };
        match client_source(kept_pid, pid) {
            ClientSource::Kept => kept == Some(*self),
            ClientSource::Fresh => self.settles(pid, constructed),
        }
    }
}

/// Where the client of a process comes from, given the process that a client is
/// kept for.
pub open spec fn client_source(kept_pid: Option<i32>, pid: i32) -> ClientSource {
    if kept_pid == Some(pid) {
        ClientSource::Kept
    } else {
        ClientSource::Fresh
    }
}

/// Tells whether the client that is kept, with the process it was made for,
/// serves a process.
pub fn npu_limiter(kept_pid: Option<i32>, pid: i32) -> (source: ClientSource)
    ensures
        source == client_source(kept_pid, pid),
{
    match kept_pid {
        Some(old_pid) => if old_pid == pid {
            ClientSource::Kept
        } else {
            ClientSource::Fresh
        },
        None => ClientSource::Fresh,
    }
}

/// Keeps the client that was constructed for a process, or a stub where the
/// construction failed.
pub fn settle_client(pid: i32, constructed: Option<SchedulerClient>) -> (kept: KeptClient)
    ensures
        kept.settles(pid, constructed),
        constructed is None ==> {
            &&& kept.client.my_slot_idx == 0
            &&& kept.client.my_proc_idx == 0
            &&& kept.client.device_id == 0
        },
{
    match constructed {
        Some(client) => KeptClient { pid, client, own_segment: None },
        None => {
            let (client, segment) = SchedulerClient::stub();
            KeptClient { pid, client, own_segment: Some(segment) }
        },
    }
}

/// A process whose client cannot be constructed is served by a stub, and stays
/// so: later calls give the same stub, whatever a construction would give then.
pub proof fn law_failed_construction_falls_back(
    kept: Option<KeptClient>,
    pid: i32,
    first: KeptClient,
    constructed: Option<SchedulerClient>,
    later: KeptClient,
)
    requires
        kept is Some ==> kept->0.pid != pid,
        first.serves(kept, pid, None),
        later.serves(Some(first), pid, constructed),
    ensures
        first.is_stub(),
        later == first,
{
}

/// A stub limits nothing: there is no limit on device memory, every request is
/// granted and leaves the segment as it is, allocations and releases are up to
/// the runtime and account for nothing, and kernels are launched at once.
pub proof fn law_stub_limits_nothing(
    stub: KeptClient,
    live: Set<i32>,
    size: u64,
    handle: u64,
    ret: u64,
    lock: InnerLock,
)
    requires
        stub.is_stub(),
    ensures
        ({
            let memory = stub.own_segment->0@;
            let device = stub.client.device_id;
            &&& memory[LocalCell::MemoryLimit] == 0
            &&& crate::worker::quota::request_fits(memory, live, device, size)
            &&& crate::worker::quota::is_granted(memory, live, device, size)
            &&& crate::worker::quota::requested(memory, live, device, size) == memory
            &&& malloc_code(memory, live, device, size, ret) == ret
            &&& malloc_memory(&stub.client, memory, live, size, ret) == memory
            &&& free_memory(&stub.client, memory, handle, ret) == memory
            &&& TokenWait::initial(&stub.client).asks(lock) == Step::<WorkerAction, ()>::Done(())
        }),
{
    assert(LocalCell::MemoryLimit.valid());
    crate::worker::laws::law_no_limit_grants_all(
        stub.own_segment->0@,
        live,
        stub.client.device_id,
        size,
    );
    crate::worker::token::law_stub_launches_at_once(stub.client, lock);
}

/// What a hook asks for next.
#[derive(Debug, Clone, Copy, PartialEq, Eq, Structural)]
pub enum HookAction {
    Worker(WorkerAction),
    /// Call the function that the hook stands in for; the reply is its code.
    CallRuntime,
    /// Read the handle that the runtime has stored.
    ReadHandle,
}

/// Where a [`MallocHook`] stands.
#[derive(Debug, Clone, Copy, PartialEq, Eq, Structural)]
pub enum MallocPhase {
    ReadLimit,
    Check(QuotaCheck),
    Call,
    ReadHandle,
    /// The update that accounts for the allocation, then the code to return.
    Account(Access<LocalCell>, u64),
    CallUnlimited,
    Returned(u64),
    Overflowed,
}

/// Allocates device memory within the limit. The result is a runtime code.
#[derive(Debug, Clone, Copy, PartialEq, Eq, Structural)]
pub struct MallocHook {
    pub device: usize,
    pub size: u64,
    pub phase: MallocPhase,
}

impl MallocHook {
    /// An allocation that has not been looked at.
    pub open spec fn initial(client: &SchedulerClient, size: u64) -> MallocHook {
        MallocHook { device: client.device_id, size, phase: MallocPhase::ReadLimit }
    }

    /// The hook in another phase.
    pub open spec fn at(self, phase: MallocPhase) -> MallocHook {
        MallocHook { phase, ..self }
    }

    /// What the hook asks for.
    pub open spec fn asks(self) -> Step<HookAction, u64> {
        match self.phase {
            MallocPhase::ReadLimit => Step::Do(
                HookAction::Worker(WorkerAction::Memory(Access::Load(LocalCell::MemoryLimit))),
            ),
            MallocPhase::Check(check) => match check.asks() {
                Step::Do(action) => Step::Do(HookAction::Worker(action)),
                _ => Step::Overflow,
            },
            MallocPhase::Call => Step::Do(HookAction::CallRuntime),
            MallocPhase::ReadHandle => Step::Do(HookAction::ReadHandle),
            MallocPhase::Account(update, _) => Step::Do(
                HookAction::Worker(WorkerAction::Memory(update)),
            ),
            MallocPhase::CallUnlimited => Step::Do(HookAction::CallRuntime),
            MallocPhase::Returned(code) => Step::Done(code),
            MallocPhase::Overflowed => Step::Overflow,
        }
    }

    /// The hook of a client once it has the reply to what it asked.
    pub open spec fn next(self, client: &SchedulerClient, reply: u64) -> MallocHook {
        match self.phase {
            MallocPhase::ReadLimit => if reply > 0 {
                self.at(MallocPhase::Check(QuotaCheck::initial(self.device, self.size)))
            } else {
                self.at(MallocPhase::CallUnlimited)
            },
            MallocPhase::Check(check) => {
                let further = check.next(reply);
                match further.asks() {
                    Step::Do(_) => self.at(MallocPhase::Check(further)),
                    Step::Done(code) => if code == RT_ERROR_NONE {
                        self.at(MallocPhase::Call)
                    } else {
                        self.at(MallocPhase::Returned(RT_ERROR_MEMORY_ALLOCATION))
                    },
                    Step::Overflow => self.at(MallocPhase::Overflowed),
                }
            },
            MallocPhase::Call => if reply == RT_ERROR_NONE {
                self.at(MallocPhase::ReadHandle)
            } else {
                self.at(
                    MallocPhase::Account(
                        client.alloc_update(self.size, reply),
                        RT_ERROR_MEMORY_ALLOCATION,
                    ),
                )
            },
            MallocPhase::ReadHandle => self.at(
                MallocPhase::Account(client.alloc_update(self.size, RT_ERROR_NONE), RT_ERROR_NONE),
            ),
            MallocPhase::Account(_, code) => self.at(MallocPhase::Returned(code)),
            MallocPhase::CallUnlimited => self.at(MallocPhase::Returned(reply)),
            MallocPhase::Returned(_) => self,
            MallocPhase::Overflowed => self,
        }
    }

    /// The allocations that a client knows once the hook has the reply to what
    /// it asked.
    pub open spec fn handles(self, client: &SchedulerClient, reply: u64) -> Map<u64, u64> {
        match self.phase {
            MallocPhase::ReadHandle => client.handles_after_alloc(reply, self.size, RT_ERROR_NONE),
            _ => client.hbm_handle_map@,
        }
    }

    /// Starts an allocation.
    pub fn start(client: &SchedulerClient, size: u64) -> (hook: MallocHook)
        ensures
            hook == MallocHook::initial(client, size),
    {
        MallocHook { device: client.current_device(), size, phase: MallocPhase::ReadLimit }
    }

    /// Tells what to do next.
    pub fn step(&self) -> (step: Step<HookAction, u64>)
        ensures
            step == self.asks(),
    {
        match &self.phase {
            MallocPhase::ReadLimit => Step::Do(
                HookAction::Worker(WorkerAction::Memory(Access::Load(LocalCell::MemoryLimit))),
            ),
            MallocPhase::Check(check) => match check.step() {
                Step::Do(action) => Step::Do(HookAction::Worker(action)),
                _ => Step::Overflow,
            },
            MallocPhase::Call => Step::Do(HookAction::CallRuntime),
            MallocPhase::ReadHandle => Step::Do(HookAction::ReadHandle),
            MallocPhase::Account(update, _) => Step::Do(
                HookAction::Worker(WorkerAction::Memory(*update)),
            ),
            MallocPhase::CallUnlimited => Step::Do(HookAction::CallRuntime),
            MallocPhase::Returned(code) => Step::Done(*code),
            MallocPhase::Overflowed => Step::Overflow,
        }
    }

    /// Takes the reply to what was asked, for a client.
    pub fn advance(&mut self, client: &mut SchedulerClient, reply: u64)
        ensures
            *final(self) == old(self).next(old(client), reply),
            final(client).hbm_handle_map@ == old(self).handles(old(client), reply),
            final(client).same_place(old(client)),
    {
        match self.phase {
            MallocPhase::ReadLimit => {
                if client.is_hbm_limited(reply) {
                    self.phase = MallocPhase::Check(QuotaCheck::start(self.device, self.size));
                } else {
                    self.phase = MallocPhase::CallUnlimited;
                }
            },
            MallocPhase::Check(check) => {
                let mut further = check;
                further.advance(reply);
                self.phase = match further.step() {
                    Step::Do(_) => MallocPhase::Check(further),
                    Step::Done(code) => if code == RT_ERROR_NONE {
                        MallocPhase::Call
                    } else {
                        MallocPhase::Returned(RT_ERROR_MEMORY_ALLOCATION)
                    },
                    Step::Overflow => MallocPhase::Overflowed,
                };
            },
            MallocPhase::Call => {
                if reply == RT_ERROR_NONE {
                    self.phase = MallocPhase::ReadHandle;
                } else {
                    let update = client.post_alloc_hbm(0, self.size, reply);
                    self.phase = MallocPhase::Account(update, RT_ERROR_MEMORY_ALLOCATION);
                }
            },
            MallocPhase::ReadHandle => {
                let update = client.post_alloc_hbm(reply, self.size, RT_ERROR_NONE);
                self.phase = MallocPhase::Account(update, RT_ERROR_NONE);
            },
            MallocPhase::Account(_, code) => {
                self.phase = MallocPhase::Returned(code);
            },
            MallocPhase::CallUnlimited => {
                self.phase = MallocPhase::Returned(reply);
            },
            MallocPhase::Returned(_) => {},
            MallocPhase::Overflowed => {},
        }
    }
}

/// The code that an allocation returns, given the runtime's.
pub open spec fn malloc_code(
    memory: Map<LocalCell, u64>,
    live: Set<i32>,
    device: usize,
    size: u64,
    ret: u64,
) -> u64 {
    if memory[LocalCell::MemoryLimit] == 0 {
        ret
    } else if crate::worker::quota::is_granted(memory, live, device, size) && ret
        == RT_ERROR_NONE {
        RT_ERROR_NONE
    } else {
        RT_ERROR_MEMORY_ALLOCATION
    }
}

/// Whether the runtime is asked under a limit.
pub open spec fn is_admitted(
    memory: Map<LocalCell, u64>,
    live: Set<i32>,
    device: usize,
    size: u64,
) -> bool {
    memory[LocalCell::MemoryLimit] != 0 && crate::worker::quota::is_granted(
        memory,
        live,
        device,
        size,
    )
}

/// The segment after an allocation of a client, given the runtime's code.
pub open spec fn malloc_memory(
    client: &SchedulerClient,
    memory: Map<LocalCell, u64>,
    live: Set<i32>,
    size: u64,
    ret: u64,
) -> Map<LocalCell, u64> {
    let reserved = crate::worker::quota::requested(memory, live, client.device_id, size);
    if is_admitted(memory, live, client.device_id, size) {
        crate::access::effect(reserved, client.alloc_update(size, ret))
    } else {
        reserved
    }
}

impl MallocHook {
    /// How an allocation that runs alone relates to the segment it started from.
    spec fn runs(
        self,
        client: &SchedulerClient,
        start: Map<LocalCell, u64>,
        memory: Map<LocalCell, u64>,
        live: Set<i32>,
        ret: u64,
    ) -> bool {
        let size = self.size;
        let limit = start[LocalCell::MemoryLimit];
        let admitted = is_admitted(start, live, self.device, size);
        let reserved = crate::worker::quota::requested(start, live, self.device, size);
        &&& self.device == client.device_id
        &&& match self.phase {
            MallocPhase::ReadLimit => memory == start,
            MallocPhase::Check(check) => {
                &&& limit != 0
                &&& check.device == self.device && check.size == size
                &&& check.runs(start, memory, live)
                &&& check.asks() is Do
                &&& 0 <= check.remaining() <= QuotaCheck::initial(self.device, size).remaining()
            },
            MallocPhase::Call => admitted && memory == reserved,
            MallocPhase::ReadHandle => admitted && memory == reserved && ret == RT_ERROR_NONE,
            MallocPhase::Account(update, code) => {
                &&& admitted && memory == reserved
                &&& update == client.alloc_update(size, ret)
                &&& code == malloc_code(start, live, self.device, size, ret)
            },
            MallocPhase::CallUnlimited => limit == 0 && memory == start,
            MallocPhase::Returned(code) => {
                &&& memory == malloc_memory(client, start, live, size, ret)
                &&& code == malloc_code(start, live, self.device, size, ret)
            },
            MallocPhase::Overflowed => false,
        }
    }

    spec fn remaining(self) -> int {
        match self.phase {
            MallocPhase::ReadLimit => 5 + QuotaCheck::initial(self.device, self.size).remaining(),
            MallocPhase::Check(check) => 4 + check.remaining(),
            MallocPhase::Call => 3,
            MallocPhase::ReadHandle => 2,
            MallocPhase::Account(_, _) => 1,
            MallocPhase::CallUnlimited => 1,
            _ => 0,
        }
    }
}

proof fn lemma_malloc_turn(
    hook: MallocHook,
    client: &SchedulerClient,
    start: Map<LocalCell, u64>,
    memory: Map<LocalCell, u64>,
    live: Set<i32>,
    ret: u64,
    handle: u64,
)
    requires
        client.wf(),
        hook.runs(client, start, memory, live, ret),
        hook.asks() is Do,
        crate::worker::quota::request_fits(start, live, client.device_id, hook.size),
        forall|c: LocalCell| c.valid() <==> #[trigger] start.dom().contains(c),
        forall|i: usize|
            #![auto]
            i < MAX_PROCESSES ==> start[LocalCell::ProcPid(i)] < Width::W32.span(),
    ensures
        match hook.asks()->Do_0 {
            HookAction::Worker(action) => {
                let after = hook.next(client, crate::worker::lone_reply(memory, live, action));
                &&& action matches WorkerAction::Memory(access) ==> access.cell().valid()
                &&& action is Memory || action is CheckAlive
                &&& after.runs(client, start, crate::worker::lone_effect(memory, action), live, ret)
                &&& after.size == hook.size
                &&& 0 <= after.remaining() < hook.remaining()
            },
            HookAction::CallRuntime => {
                let after = hook.next(client, ret);
                &&& after.runs(client, start, memory, live, ret)
                &&& after.size == hook.size
                &&& 0 <= after.remaining() < hook.remaining()
            },
            HookAction::ReadHandle => {
                let after = hook.next(client, handle);
                &&& after.runs(client, start, memory, live, ret)
                &&& after.size == hook.size
                &&& 0 <= after.remaining() < hook.remaining()
            },
        },
{
    match hook.phase {
        MallocPhase::ReadLimit => {
            let action = WorkerAction::Memory(Access::Load(LocalCell::MemoryLimit));
            assert(crate::worker::lone_effect(memory, action) =~= memory);
        },
        MallocPhase::Check(check) => {
            crate::worker::quota::lemma_check_turn(check, start, memory, live);
        },
        _ => {},
    }
}

/// Allocates device memory, on a segment that is held alone, given the code that
/// the runtime returns when it is called and the handle that it then stores.
#[allow(non_snake_case)]
pub fn rtMalloc(
    client: &mut SchedulerClient,
    shmem: &mut LocalContainerShmem,
    procs: &ProcessTable,
    size: u64,
    ret: u64,
    handle: u64,
) -> (code: u64)
    requires
        old(client).wf(),
        crate::worker::quota::request_fits(old(shmem)@, procs@, old(client).device_id, size),
    ensures
        code == malloc_code(old(shmem)@, procs@, old(client).device_id, size, ret),
        final(shmem)@ == malloc_memory(old(client), old(shmem)@, procs@, size, ret),
        final(client).same_place(old(client)),
        final(client).hbm_handle_map@ == if is_admitted(
            old(shmem)@,
            procs@,
            old(client).device_id,
            size,
        ) {
            old(client).handles_after_alloc(handle, size, ret)
        } else {
            old(client).hbm_handle_map@
        },
{
    let ghost before = shmem@;
    let ghost handles = client.hbm_handle_map@;
    let ghost known = if is_admitted(before, procs@, client.device_id, size) {
        client.handles_after_alloc(handle, size, ret)
    } else {
        handles
    };
    let mut hook = MallocHook::start(client, size);
    loop
        invariant
            before == old(shmem)@,
            handles == old(client).hbm_handle_map@,
            known == if is_admitted(before, procs@, client.device_id, size) {
                old(client).handles_after_alloc(handle, size, ret)
            } else {
                handles
            },
            client.wf(),
            client.same_place(old(client)),
            hook.size == size,
            crate::worker::quota::request_fits(before, procs@, client.device_id, size),
            forall|c: LocalCell| c.valid() <==> #[trigger] before.dom().contains(c),
            forall|i: usize|
                #![auto]
                i < MAX_PROCESSES ==> before[LocalCell::ProcPid(i)] < Width::W32.span(),
            hook.runs(client, before, shmem@, procs@, ret),
            client.hbm_handle_map@ == match hook.phase {
                MallocPhase::Account(_, _) => known,
                MallocPhase::Returned(_) => known,
                _ => handles,
            },
        decreases hook.remaining(),
    {
        proof {
            if hook.asks() is Do {
                lemma_malloc_turn(hook, client, before, shmem@, procs@, ret, handle);
            }
        }
        match hook.step() {
            Step::Do(HookAction::Worker(WorkerAction::Memory(access))) => {
                let reply: u64 = shmem.perform(access);
                hook.advance(client, reply);
            },
            Step::Do(HookAction::Worker(WorkerAction::CheckAlive(pid))) => {
                let reply: u64 = if procs.is_alive(pid) { 1 } else { 0 };
                hook.advance(client, reply);
            },
            Step::Do(HookAction::CallRuntime) => {
                hook.advance(client, ret);
            },
            Step::Do(HookAction::ReadHandle) => {
                hook.advance(client, handle);
            },
            Step::Done(code) => {
                return code;
            },
            _ => {
                assert(false);
                return RT_ERROR_MEMORY_ALLOCATION;
            },
        }
    }
}

impl MallocHook {
    /// The hook of a client after a sequence of replies.
    pub open spec fn after(self, client: &SchedulerClient, replies: Seq<u64>) -> MallocHook
        decreases replies.len(),
    {
        if replies.len() == 0 {
            self
        } else {
            self.after(client, replies.drop_last()).next(client, replies.last())
        }
    }

    /// The actions that the replies answer, in order.
    pub open spec fn actions(self, client: &SchedulerClient, replies: Seq<u64>) -> Seq<HookAction>
        decreases replies.len(),
    {
        if replies.len() == 0 {
            Seq::empty()
        } else {
            let before = self.actions(client, replies.drop_last());
            match self.after(client, replies.drop_last()).asks() {
                Step::Do(action) => before.push(action),
                _ => before,
            }
        }
    }

    /// How often the runtime has been called.
    pub open spec fn calls(self, client: &SchedulerClient, replies: Seq<u64>) -> nat {
        self.actions(client, replies).filter(|action: HookAction| action is CallRuntime).len()
    }
}

proof fn lemma_calls(
    hook: MallocHook,
    client: &SchedulerClient,
    replies: Seq<u64>,
)
    requires
        replies.len() > 0,
    ensures
        hook.calls(client, replies) == hook.calls(client, replies.drop_last()) + if hook.after(
            client,
            replies.drop_last(),
        ).asks() == Step::<HookAction, u64>::Do(HookAction::CallRuntime) {
            1nat
        } else {
            0
        },
{
    broadcast use vstd::seq_lib::group_seq_properties;

    let is_call = |action: HookAction| action is CallRuntime;
    let few = hook.actions(client, replies.drop_last());
    match hook.after(client, replies.drop_last()).asks() {
        Step::Do(action) => {
            assert(few.push(action).drop_last() =~= few);
            reveal(Seq::filter);
        },
        _ => {},
    }
}

/// Whatever other processes do meanwhile, the runtime is called at most once for
/// an allocation. When the hook returns it has been called, unless the limit
/// refused the request.
pub proof fn law_runtime_called_once(client: &SchedulerClient, size: u64, replies: Seq<u64>)
    ensures
        ({
            let hook = MallocHook::initial(client, size);
            let calls = hook.calls(client, replies);
            match hook.after(client, replies).phase {
                MallocPhase::ReadHandle => calls == 1,
                MallocPhase::Account(_, _) => calls == 1,
                MallocPhase::Returned(code) => calls == 1 || calls == 0 && code
                    == RT_ERROR_MEMORY_ALLOCATION,
                _ => calls == 0,
            }
        }),
    decreases replies.len(),
{
    let hook = MallocHook::initial(client, size);
    if replies.len() > 0 {
        law_runtime_called_once(client, size, replies.drop_last());
        lemma_calls(hook, client, replies);
    } else {
        reveal(Seq::filter);
    }
}

/// Where a [`FreeHook`] stands.
#[derive(Debug, Clone, Copy, PartialEq, Eq, Structural)]
pub enum FreePhase {
    Call,
    /// The runtime's code, in this phase and in those that follow.
    ReadLimit(u64),
    /// The two updates that account for the release.
    GiveBack(u64, Access<LocalCell>, Access<LocalCell>),
    Forget(u64, Access<LocalCell>),
    Returned(u64),
}

/// Releases device memory. The result is the runtime's code.
#[derive(Debug, Clone, Copy, PartialEq, Eq, Structural)]
pub struct FreeHook {
    pub handle: u64,
    pub phase: FreePhase,
}

impl FreeHook {
    /// A release that has not been made.
    pub open spec fn initial(handle: u64) -> FreeHook {
        FreeHook { handle, phase: FreePhase::Call }
    }

    /// The hook in another phase.
    pub open spec fn at(self, phase: FreePhase) -> FreeHook {
        FreeHook { phase, ..self }
    }

    /// What the hook asks for.
    pub open spec fn asks(self) -> Step<HookAction, u64> {
        match self.phase {
            FreePhase::Call => Step::Do(HookAction::CallRuntime),
            FreePhase::ReadLimit(_) => Step::Do(
                HookAction::Worker(WorkerAction::Memory(Access::Load(LocalCell::MemoryLimit))),
            ),
            FreePhase::GiveBack(_, update, _) => Step::Do(
                HookAction::Worker(WorkerAction::Memory(update)),
            ),
            FreePhase::Forget(_, update) => Step::Do(
                HookAction::Worker(WorkerAction::Memory(update)),
            ),
            FreePhase::Returned(ret) => Step::Done(ret),
        }
    }

    /// The hook of a client once it has the reply to what it asked.
    pub open spec fn next(self, client: &SchedulerClient, reply: u64) -> FreeHook {
        match self.phase {
            FreePhase::Call => self.at(FreePhase::ReadLimit(reply)),
            FreePhase::ReadLimit(ret) => {
                let updates = client.free_updates(self.handle, ret);
                if reply > 0 && updates.len() > 0 {
                    self.at(FreePhase::GiveBack(ret, updates[0], updates[1]))
                } else {
                    self.at(FreePhase::Returned(ret))
                }
            },
            FreePhase::GiveBack(ret, _, last) => self.at(FreePhase::Forget(ret, last)),
            FreePhase::Forget(ret, _) => self.at(FreePhase::Returned(ret)),
            FreePhase::Returned(_) => self,
        }
    }

    /// The allocations that a client knows once the hook has the reply to what
    /// it asked.
    pub open spec fn handles(self, client: &SchedulerClient, reply: u64) -> Map<u64, u64> {
        match self.phase {
            FreePhase::ReadLimit(ret) => if reply > 0 {
                client.handles_after_free(self.handle, ret)
            } else {
                client.hbm_handle_map@
            },
            _ => client.hbm_handle_map@,
        }
    }

    /// Starts a release.
    pub fn start(handle: u64) -> (hook: FreeHook)
        ensures
            hook == FreeHook::initial(handle),
    {
        FreeHook { handle, phase: FreePhase::Call }
    }

    /// Tells what to do next.
    pub fn step(&self) -> (step: Step<HookAction, u64>)
        ensures
            step == self.asks(),
    {
        match self.phase {
            FreePhase::Call => Step::Do(HookAction::CallRuntime),
            FreePhase::ReadLimit(_) => Step::Do(
                HookAction::Worker(WorkerAction::Memory(Access::Load(LocalCell::MemoryLimit))),
            ),
            FreePhase::GiveBack(_, update, _) => Step::Do(
                HookAction::Worker(WorkerAction::Memory(update)),
            ),
            FreePhase::Forget(_, update) => Step::Do(
                HookAction::Worker(WorkerAction::Memory(update)),
            ),
            FreePhase::Returned(ret) => Step::Done(ret),
        }
    }

    /// Takes the reply to what was asked, for a client.
    pub fn advance(&mut self, client: &mut SchedulerClient, reply: u64)
        ensures
            *final(self) == old(self).next(old(client), reply),
            final(client).hbm_handle_map@ == old(self).handles(old(client), reply),
            final(client).same_place(old(client)),
    {
        match self.phase {
            FreePhase::Call => {
                self.phase = FreePhase::ReadLimit(reply);
            },
            FreePhase::ReadLimit(ret) => {
                if client.is_hbm_limited(reply) {
                    let updates = client.post_free_hbm(self.handle, ret);
                    if updates.len() > 0 {
                        self.phase = FreePhase::GiveBack(ret, updates[0], updates[1]);
                    } else {
                        self.phase = FreePhase::Returned(ret);
                    }
                } else {
                    self.phase = FreePhase::Returned(ret);
                }
            },
            FreePhase::GiveBack(ret, _, last) => {
                self.phase = FreePhase::Forget(ret, last);
            },
            FreePhase::Forget(ret, _) => {
                self.phase = FreePhase::Returned(ret);
            },
            FreePhase::Returned(_) => {},
        }
    }
}

/// The segment after a release of a client, given the runtime's code.
pub open spec fn free_memory(
    client: &SchedulerClient,
    memory: Map<LocalCell, u64>,
    handle: u64,
    ret: u64,
) -> Map<LocalCell, u64> {
    if memory[LocalCell::MemoryLimit] > 0 {
        crate::access::effects(memory, client.free_updates(handle, ret))
    } else {
        memory
    }
}

/// Releases device memory, on a segment that is held alone, given the code that
/// the runtime returns.
#[allow(non_snake_case)]
pub fn rtFree(
    client: &mut SchedulerClient,
    shmem: &mut LocalContainerShmem,
    handle: u64,
    ret: u64,
) -> (code: u64)
    requires
        old(client).wf(),
    ensures
        code == ret,
        final(shmem)@ == free_memory(old(client), old(shmem)@, handle, ret),
        final(client).same_place(old(client)),
        final(client).hbm_handle_map@ == if old(shmem)@[LocalCell::MemoryLimit] > 0 {
            old(client).handles_after_free(handle, ret)
        } else {
            old(client).hbm_handle_map@
        },
{
    let ghost before = shmem@;
    let ghost updates = client.free_updates(handle, ret);
    let ghost limit = before[LocalCell::MemoryLimit];
    let mut hook = FreeHook::start(handle);
    proof {
        reveal_with_fuel(crate::access::effects, 3);
        if updates.len() > 0 {
            assert(updates.drop_last() =~= seq![updates[0]]);
            assert(updates.drop_last().drop_last() =~= Seq::empty());
        }
    }
    loop
        invariant
            before == old(shmem)@,
            limit == before[LocalCell::MemoryLimit],
            updates == old(client).free_updates(handle, ret),
            crate::access::effects(before, updates) == if updates.len() == 0 {
                before
            } else {
                crate::access::effect(crate::access::effect(before, updates[0]), updates[1])
            },
            forall|c: LocalCell| c.valid() <==> #[trigger] before.dom().contains(c),
            client.wf(),
            client.same_place(old(client)),
            hook.handle == handle,
            match hook.phase {
                FreePhase::Call => shmem@ == before,
                FreePhase::ReadLimit(code) => shmem@ == before && code == ret,
                FreePhase::GiveBack(code, first, last) => {
                    &&& shmem@ == before && code == ret && limit > 0
                    &&& updates.len() == 2 && first == updates[0] && last == updates[1]
                },
                FreePhase::Forget(code, last) => {
                    &&& code == ret && limit > 0
                    &&& updates.len() == 2 && last == updates[1]
                    &&& shmem@ == crate::access::effect(before, updates[0])
                },
                FreePhase::Returned(code) => {
                    &&& code == ret
                    &&& shmem@ == free_memory(old(client), before, handle, ret)
                },
            },
            match hook.phase {
                FreePhase::Call | FreePhase::ReadLimit(_) => client.hbm_handle_map@ == old(
                    client,
                ).hbm_handle_map@,
                _ => client.hbm_handle_map@ == if limit > 0 {
                    old(client).handles_after_free(handle, ret)
                } else {
                    old(client).hbm_handle_map@
                },
            },
        decreases
            match hook.phase {
                FreePhase::Call => 4int,
                FreePhase::ReadLimit(_) => 3,
                FreePhase::GiveBack(_, _, _) => 2,
                FreePhase::Forget(_, _) => 1,
                FreePhase::Returned(_) => 0,
            },
    {
        match hook.step() {
            Step::Do(HookAction::Worker(WorkerAction::Memory(access))) => {
                assert(crate::access::effect(before, Access::Load(LocalCell::MemoryLimit))
                    =~= before);
                let reply: u64 = shmem.perform(access);
                hook.advance(client, reply);
            },
            Step::Do(HookAction::CallRuntime) => {
                hook.advance(client, ret);
            },
            Step::Done(code) => {
                return code;
            },
            _ => {
                assert(false);
                return ret;
            },
        }
    }
}

/// A release that the runtime refuses is passed on and accounts for nothing.
pub proof fn law_failed_free_changes_nothing(
    client: &SchedulerClient,
    memory: Map<LocalCell, u64>,
    handle: u64,
    ret: u64,
)
    requires
        ret != RT_ERROR_NONE,
    ensures
        free_memory(client, memory, handle, ret) == memory,
        client.handles_after_free(handle, ret) == client.hbm_handle_map@,
{
}

/// However much is asked for, an allocation under a limit leaves the counter
/// within the limit, or where a recalculation puts it.
pub proof fn law_malloc_keeps_limit(
    client: &SchedulerClient,
    memory: Map<LocalCell, u64>,
    live: Set<i32>,
    size: u64,
    ret: u64,
)
    requires
        memory[LocalCell::MemoryLimit] != 0,
        crate::worker::quota::request_fits(memory, live, client.device_id, size),
    ensures
        ({
            let after = malloc_memory(client, memory, live, size, ret)[LocalCell::MemoryUsed];
            ||| after <= memory[LocalCell::MemoryLimit]
            ||| after == crate::worker::usage::corrected_used(memory, live, client.device_id)
        }),
{
    let device = client.device_id;
    let reserved = crate::worker::quota::requested(memory, live, device, size);
    let used = crate::worker::usage::corrected_used(memory, live, device);
    if is_admitted(memory, live, device, size) {
        crate::access::lemma_fit_keeps(Width::W64, used as int);
        assert(reserved[LocalCell::MemoryUsed] == used + size);
    }
}

/// An allocation that the runtime refuses leaves the segment as a recalculation
/// does: what was reserved is given back.
pub proof fn law_failed_malloc_leaves_no_trace(
    client: &SchedulerClient,
    memory: Map<LocalCell, u64>,
    live: Set<i32>,
    size: u64,
    ret: u64,
)
    requires
        ret != RT_ERROR_NONE,
        memory[LocalCell::MemoryLimit] != 0,
        crate::worker::quota::request_fits(memory, live, client.device_id, size),
        memory.dom().contains(LocalCell::MemoryUsed),
    ensures
        malloc_memory(client, memory, live, size, ret) == crate::worker::usage::reclaimed(
            memory,
            live,
            client.device_id,
        ),
{
    let corrected = crate::worker::usage::reclaimed(memory, live, client.device_id);
    if is_admitted(memory, live, client.device_id, size) {
        assert(corrected[LocalCell::MemoryUsed] == crate::worker::usage::corrected_used(
            memory,
            live,
            client.device_id,
        ));
        crate::worker::laws::law_failed_alloc_gives_back(*client, corrected, 0, size, ret);
    }
}

/// Memory that is allocated under a limit and released again leaves the segment
/// as a recalculation does, and the known allocations as they were, unless the
/// handle was already in use.
pub proof fn law_malloc_then_free(
    before: SchedulerClient,
    holding: SchedulerClient,
    memory: Map<LocalCell, u64>,
    live: Set<i32>,
    handle: u64,
    size: u64,
)
    requires
        before.wf(),
        holding.same_place(&before),
        holding.hbm_handle_map@ == before.handles_after_alloc(handle, size, RT_ERROR_NONE),
        !before.hbm_handle_map@.contains_key(handle),
        is_admitted(memory, live, before.device_id, size),
        crate::worker::quota::request_fits(memory, live, before.device_id, size),
        forall|c: LocalCell| c.valid() ==> #[trigger] memory.dom().contains(c),
    ensures
        free_memory(
            &holding,
            malloc_memory(&before, memory, live, size, RT_ERROR_NONE),
            handle,
            RT_ERROR_NONE,
        ) == crate::worker::usage::reclaimed(memory, live, before.device_id),
        holding.handles_after_free(handle, RT_ERROR_NONE) == before.hbm_handle_map@,
{
    let corrected = crate::worker::usage::reclaimed(memory, live, before.device_id);
    assert(corrected[LocalCell::MemoryUsed] == crate::worker::usage::corrected_used(
        memory,
        live,
        before.device_id,
    ));
    crate::worker::laws::law_alloc_then_free(before, holding, corrected, handle, size);
}

/// What is reported of device memory, in bytes.
#[derive(Debug, Clone, Copy, PartialEq, Eq, Structural)]
pub struct MemoryReport {
    pub free: u64,
    pub total: u64,
}

/// Where a [`MemoryInfoHook`] stands.
#[derive(Debug, Clone, Copy, PartialEq, Eq, Structural)]
pub enum MemoryInfoPhase {
    ReadLimit,
    ReadQuota,
    /// The limit that will be reported.
    Scan(u64, UsageScan),
    CallUnlimited,
    /// The code to return, and what is reported.
    Returned(u64, Option<MemoryReport>),
    Overflowed,
}

/// Reports free and total device memory under a limit. The result is a runtime
/// code and what is reported; without a limit the runtime reports.
#[derive(Debug, Clone, Copy, PartialEq, Eq, Structural)]
pub struct MemoryInfoHook {
    pub device: usize,
    pub phase: MemoryInfoPhase,
}

/// Free and total device memory, given the limit and what is in use.
pub open spec fn reported_info(quota: u64, used: u64) -> MemoryReport {
    MemoryReport {
        free: crate::worker::client::monus(
            crate::worker::client::monus(quota as int, used as int),
            crate::worker::client::overhead_bytes(),
        ) as u64,
        total: quota,
    }
}

impl MemoryInfoHook {
    /// A query that has not been looked at.
    pub open spec fn initial(client: &SchedulerClient) -> MemoryInfoHook {
        MemoryInfoHook { device: client.device_id, phase: MemoryInfoPhase::ReadLimit }
    }

    /// The hook in another phase.
    pub open spec fn at(self, phase: MemoryInfoPhase) -> MemoryInfoHook {
        MemoryInfoHook { phase, ..self }
    }

    /// What the hook asks for.
    pub open spec fn asks(self) -> Step<HookAction, (u64, Option<MemoryReport>)> {
        match self.phase {
            MemoryInfoPhase::ReadLimit | MemoryInfoPhase::ReadQuota => Step::Do(
                HookAction::Worker(WorkerAction::Memory(Access::Load(LocalCell::MemoryLimit))),
            ),
            MemoryInfoPhase::Scan(_, scan) => match scan.asks() {
                Step::Do(action) => Step::Do(HookAction::Worker(action)),
                _ => Step::Overflow,
            },
            MemoryInfoPhase::CallUnlimited => Step::Do(HookAction::CallRuntime),
            MemoryInfoPhase::Returned(code, info) => Step::Done((code, info)),
            MemoryInfoPhase::Overflowed => Step::Overflow,
        }
    }

    /// The hook once it has the reply to what it asked.
    pub open spec fn next(self, reply: u64) -> MemoryInfoHook {
        match self.phase {
            MemoryInfoPhase::ReadLimit => if reply > 0 {
                self.at(MemoryInfoPhase::ReadQuota)
            } else {
                self.at(MemoryInfoPhase::CallUnlimited)
            },
            MemoryInfoPhase::ReadQuota => self.at(
                MemoryInfoPhase::Scan(reply, UsageScan::initial(self.device)),
            ),
            MemoryInfoPhase::Scan(quota, scan) => {
                let further = scan.next(reply);
                match further.asks() {
                    Step::Do(_) => self.at(MemoryInfoPhase::Scan(quota, further)),
                    Step::Done(used) => self.at(
                        MemoryInfoPhase::Returned(
                            RT_ERROR_NONE,
                            Some(reported_info(quota, used)),
                        ),
                    ),
                    Step::Overflow => self.at(MemoryInfoPhase::Overflowed),
                }
            },
            MemoryInfoPhase::CallUnlimited => self.at(MemoryInfoPhase::Returned(reply, None)),
            MemoryInfoPhase::Returned(_, _) => self,
            MemoryInfoPhase::Overflowed => self,
        }
    }

    /// Starts a query.
    pub fn start(client: &SchedulerClient) -> (hook: MemoryInfoHook)
        ensures
            hook == MemoryInfoHook::initial(client),
    {
        MemoryInfoHook { device: client.current_device(), phase: MemoryInfoPhase::ReadLimit }
    }

    /// Tells what to do next.
    pub fn step(&self) -> (step: Step<HookAction, (u64, Option<MemoryReport>)>)
        ensures
            step == self.asks(),
    {
        match &self.phase {
            MemoryInfoPhase::ReadLimit | MemoryInfoPhase::ReadQuota => Step::Do(
                HookAction::Worker(WorkerAction::Memory(Access::Load(LocalCell::MemoryLimit))),
            ),
            MemoryInfoPhase::Scan(_, scan) => match scan.step() {
                Step::Do(action) => Step::Do(HookAction::Worker(action)),
                _ => Step::Overflow,
            },
            MemoryInfoPhase::CallUnlimited => Step::Do(HookAction::CallRuntime),
            MemoryInfoPhase::Returned(code, info) => Step::Done((*code, *info)),
            MemoryInfoPhase::Overflowed => Step::Overflow,
        }
    }

    /// Takes the reply to what was asked, for a client.
    pub fn advance(&mut self, client: &SchedulerClient, reply: u64)
        ensures
            *final(self) == old(self).next(reply),
    {
        match self.phase {
            MemoryInfoPhase::ReadLimit => {
                if client.is_hbm_limited(reply) {
                    self.phase = MemoryInfoPhase::ReadQuota;
                } else {
                    self.phase = MemoryInfoPhase::CallUnlimited;
                }
            },
            MemoryInfoPhase::ReadQuota => {
                self.phase = MemoryInfoPhase::Scan(reply, UsageScan::start(self.device));
            },
            MemoryInfoPhase::Scan(quota, scan) => {
                let mut further = scan;
                further.advance(reply);
                self.phase = match further.step() {
                    Step::Do(_) => MemoryInfoPhase::Scan(quota, further),
                    Step::Done(used) => {
                        let (free, total) = client.get_hbm_info(quota, used);
                        MemoryInfoPhase::Returned(
                            RT_ERROR_NONE,
                            Some(MemoryReport { free, total }),
                        )
                    },
                    Step::Overflow => MemoryInfoPhase::Overflowed,
                };
            },
            MemoryInfoPhase::CallUnlimited => {
                self.phase = MemoryInfoPhase::Returned(reply, None);
            },
            MemoryInfoPhase::Returned(_, _) => {},
            MemoryInfoPhase::Overflowed => {},
        }
    }
}

/// Reports free and total device memory, on a segment that is held alone, given
/// the code that the runtime returns when it is called.
#[allow(non_snake_case)]
pub fn rtMemGetInfoEx(
    client: &SchedulerClient,
    shmem: &mut LocalContainerShmem,
    procs: &ProcessTable,
    ret: u64,
) -> (reply: (u64, Option<MemoryReport>))
    requires
        client.wf(),
        old(shmem)@[LocalCell::MemoryLimit] > 0 ==> crate::worker::usage::usage_fits(
            old(shmem)@,
            procs@,
            client.device_id,
        ),
    ensures
        ({
            let limit = old(shmem)@[LocalCell::MemoryLimit];
            if limit > 0 {
                &&& reply.0 == RT_ERROR_NONE
                &&& reply.1 == Some(
                    reported_info(
                        limit,
                        crate::worker::usage::held_usage(
                            old(shmem)@,
                            procs@,
                            client.device_id,
                            MAX_PROCESSES as nat,
                        ) as u64,
                    ),
                )
                &&& final(shmem)@ == crate::worker::usage::reclaimed(
                    old(shmem)@,
                    procs@,
                    client.device_id,
                )
            } else {
                reply == (ret, None::<MemoryReport>) && final(shmem)@ == old(shmem)@
            }
        }),
{
    let ghost before = shmem@;
    let ghost limit = before[LocalCell::MemoryLimit];
    let device: usize = client.current_device();
    let mut hook = MemoryInfoHook::start(client);
    proof {
        crate::worker::usage::lemma_scan_starts(before, procs@, device);
        assert(crate::access::effect(before, Access::Load(LocalCell::MemoryLimit)) =~= before);
    }
    loop
        invariant
            before == old(shmem)@,
            limit == before[LocalCell::MemoryLimit],
            device == client.device_id,
            device < NPU_DEVICE_MAX,
            hook.device == device,
            limit > 0 ==> crate::worker::usage::usage_fits(before, procs@, device),
            UsageScan::initial(device).runs(before, before, procs@, device),
            crate::access::effect(before, Access::Load(LocalCell::MemoryLimit)) == before,
            forall|c: LocalCell| c.valid() <==> #[trigger] before.dom().contains(c),
            forall|i: usize|
                #![auto]
                i < MAX_PROCESSES ==> before[LocalCell::ProcPid(i)] < Width::W32.span(),
            match hook.phase {
                MemoryInfoPhase::ReadLimit => shmem@ == before,
                MemoryInfoPhase::ReadQuota => shmem@ == before && limit > 0,
                MemoryInfoPhase::Scan(quota, scan) => {
                    &&& quota == limit && limit > 0
                    &&& scan.asks() is Do
                    &&& scan.runs(before, shmem@, procs@, device)
                    &&& 0 <= scan.remaining() <= UsageScan::initial(device).remaining()
                },
                MemoryInfoPhase::CallUnlimited => shmem@ == before && limit == 0,
                MemoryInfoPhase::Returned(code, info) => if limit > 0 {
                    &&& code == RT_ERROR_NONE
                    &&& info == Some(
                        reported_info(
                            limit,
                            crate::worker::usage::held_usage(
                                before,
                                procs@,
                                device,
                                MAX_PROCESSES as nat,
                            ) as u64,
                        ),
                    )
                    &&& shmem@ == crate::worker::usage::reclaimed(before, procs@, device)
                } else {
                    code == ret && info is None && shmem@ == before
                },
                MemoryInfoPhase::Overflowed => false,
            },
        decreases
            match hook.phase {
                MemoryInfoPhase::ReadLimit => 3 + UsageScan::initial(device).remaining(),
                MemoryInfoPhase::ReadQuota => 2 + UsageScan::initial(device).remaining(),
                MemoryInfoPhase::Scan(_, scan) => 1 + scan.remaining(),
                MemoryInfoPhase::CallUnlimited => 1,
                _ => 0,
            },
    {
        proof {
            if let MemoryInfoPhase::Scan(_, scan) = hook.phase {
                crate::worker::usage::lemma_scan_turn(scan, before, shmem@, procs@, device);
            }
        }
        match hook.step() {
            Step::Do(HookAction::Worker(WorkerAction::Memory(access))) => {
                let reply: u64 = shmem.perform(access);
                hook.advance(client, reply);
            },
            Step::Do(HookAction::Worker(WorkerAction::CheckAlive(pid))) => {
                let reply: u64 = if procs.is_alive(pid) { 1 } else { 0 };
                hook.advance(client, reply);
            },
            Step::Do(HookAction::CallRuntime) => {
                hook.advance(client, ret);
            },
            Step::Done(reply) => {
                return reply;
            },
            _ => {
                assert(false);
                return (ret, None);
            },
        }
    }
}

/// Where anything is reported as free, it makes up the total together with what
/// is in use and the overhead; it is never more than the total.
pub proof fn law_free_memory_is_within_total(quota: u64, used: u64)
    ensures
        ({
            let report = reported_info(quota, used);
            &&& report.free <= report.total
            &&& report.free > 0 ==> report.free + used + crate::worker::client::overhead_bytes()
                == report.total
        }),
{
}

/// A process is served by the client that was made for it, and by no other: one that
/// is kept for another process, as after a fork, is replaced by what is constructed
/// now, or by a client that is not connected, with a segment of zeros.
pub proof fn law_client_serves_its_process(
    kept: Option<KeptClient>,
    pid: i32,
    constructed: Option<SchedulerClient>,
    serving: KeptClient,
)
    requires
        serving.serves(kept, pid, constructed),
    ensures
        serving.pid == pid,
        kept is Some && kept->0.pid == pid ==> serving == kept->0,
        kept is None || kept->0.pid != pid ==> {
            &&& constructed matches Some(client) ==> serving.client == client
                && serving.own_segment is None
            &&& constructed is None ==> {
                &&& !serving.client.connected
                &&& serving.client.my_slot_idx < 32
                &&& serving.client.my_proc_idx < 64
                &&& serving.client.device_id < 8
                &&& serving.own_segment matches Some(segment) && segment.memory_limit == 0
                    && segment.memory_used == 0 && segment.tokens_remaining == 0
                &&& forall|handle: u64| !serving.client.hbm_handle_map@.contains_key(handle)
            }
        },
{
    if (kept is None || kept->0.pid != pid) && constructed is None {
        let segment = serving.own_segment->0;
        assert(LocalCell::MemoryLimit.valid());
        assert(LocalCell::MemoryUsed.valid());
        assert(LocalCell::TokensRemaining.valid());
        assert(segment@[LocalCell::MemoryLimit] == 0);
        assert(segment@[LocalCell::MemoryUsed] == 0);
        assert(segment@[LocalCell::TokensRemaining] == 0);
    }
}

/// The client that is kept serves a process exactly where it was made for it.
pub proof fn law_kept_client_is_of_process(kept_pid: Option<i32>, pid: i32)
    ensures
        client_source(kept_pid, pid) is Kept <==> kept_pid == Some(pid),
        client_source(kept_pid, pid) is Fresh <==> kept_pid != Some(pid),
{
}

impl MallocHook {
    /// Whether the hook asks for an access to the segment.
    pub open spec fn asks_for(self, access: Access<LocalCell>) -> bool {
        self.asks() == Step::<HookAction, u64>::Do(HookAction::Worker(WorkerAction::Memory(access)))
    }

    /// Whether the hook calls the runtime.
    pub open spec fn calls_runtime(self) -> bool {
        self.asks() == Step::<HookAction, u64>::Do(HookAction::CallRuntime)
    }
}

/// Whatever others do meanwhile, an allocation without a limit is left to the runtime
/// and returns its code. Under a limit a check of the same size on the client's
/// device comes first.
pub proof fn law_unlimited_malloc_is_passed_on(
    client: &SchedulerClient,
    size: u64,
    limit: u64,
    code: u64,
)
    ensures
        ({
            let start = MallocHook::initial(client, size);
            let unlimited = start.next(client, 0);
            &&& start.asks_for(Access::Load(LocalCell::MemoryLimit))
            &&& unlimited.calls_runtime()
            &&& unlimited.next(client, code).asks() == Step::<HookAction, u64>::Done(code)
            &&& unlimited.handles(client, code) == client.hbm_handle_map@
            &&& limit > 0 ==> start.next(client, limit).phase == MallocPhase::Check(
                QuotaCheck::initial(client.device_id, size),
            )
            &&& limit > 0 ==> start.next(client, limit).size == size
        }),
{
}

/// Whatever others do meanwhile, a refused check fails the allocation without a call
/// of the runtime. A granted one leads to the call.
pub proof fn law_check_comes_before_call(
    hook: MallocHook,
    client: &SchedulerClient,
    check: QuotaCheck,
    reply: u64,
)
    requires
        hook.phase == MallocPhase::Check(check),
        check.asks() is Do,
    ensures
        hook.asks() == Step::<HookAction, u64>::Do(HookAction::Worker(check.asks()->Do_0)),
        check.next(reply).asks() is Do ==> hook.next(client, reply) == (MallocHook {
            phase: MallocPhase::Check(check.next(reply)),
            ..hook
        }),
        check.next(reply).asks() matches Step::Done(code) ==> {
            &&& code == 0 ==> hook.next(client, reply) == (MallocHook {
                phase: MallocPhase::Call,
                ..hook
            })
            &&& code != 0 ==> hook.next(client, reply).asks() == Step::<HookAction, u64>::Done(
                207001,
            )
        },
        check.next(reply).asks() is Overflow ==> hook.next(client, reply).asks() is Overflow,
        hook.handles(client, reply) == client.hbm_handle_map@,
{
}

/// Whatever others do meanwhile, an allocation that the runtime makes is counted in
/// the client's slot and known by the handle that the runtime stored. One that it
/// refuses is taken off the counter of used memory, and fails.
pub proof fn law_call_is_accounted(
    hook: MallocHook,
    client: &SchedulerClient,
    code: u64,
    handle: u64,
    reply: u64,
)
    requires
        hook.phase is Call,
    ensures
        ({
            let made = hook.next(client, 0);
            let counting = made.next(client, handle);
            let refused = hook.next(client, code);
            let cell = LocalCell::ProcHbm(client.my_proc_idx, client.device_id);
            &&& hook.calls_runtime()
            &&& hook.handles(client, code) == client.hbm_handle_map@
            &&& made.asks() == Step::<HookAction, u64>::Do(HookAction::ReadHandle)
            &&& made.handles(client, handle) == client.hbm_handle_map@.insert(handle, hook.size)
            &&& counting.asks_for(Access::FetchAdd(cell, hook.size))
            &&& counting.handles(client, reply) == client.hbm_handle_map@
            &&& counting.next(client, reply).asks() == Step::<HookAction, u64>::Done(0)
            &&& code != 0 ==> {
                &&& refused.asks_for(Access::FetchSub(LocalCell::MemoryUsed, hook.size))
                &&& refused.handles(client, reply) == client.hbm_handle_map@
                &&& refused.next(client, reply).asks() == Step::<HookAction, u64>::Done(207001)
            }
        }),
{
}

/// What an allocation on a segment that is held alone comes to. Without a limit it
/// returns what the runtime does and leaves the segment alone. Under a limit it
/// succeeds where the counter that a recalculation leaves has room and the runtime
/// succeeds; then the counter and what the client's slot counts are higher by its
/// size. In every other case it fails with 207001, and the segment is as the
/// recalculation leaves it.
pub proof fn law_malloc_comes_to(
    client: &SchedulerClient,
    memory: Map<LocalCell, u64>,
    live: Set<i32>,
    size: u64,
    code: u64,
    other: LocalCell,
)
    requires
        crate::worker::quota::request_fits(memory, live, client.device_id, size),
        memory.dom().contains(LocalCell::MemoryUsed),
        other != LocalCell::ProcHbm(client.my_proc_idx, client.device_id),
        !(other is MemoryUsed),
    ensures
        ({
            let limit = memory[LocalCell::MemoryLimit];
            let cell = LocalCell::ProcHbm(client.my_proc_idx, client.device_id);
            let corrected = crate::worker::usage::reclaimed(memory, live, client.device_id);
            let counted = corrected[LocalCell::MemoryUsed];
            let after = malloc_memory(client, memory, live, size, code);
            let result = malloc_code(memory, live, client.device_id, size, code);
            &&& limit == 0 ==> result == code && after == memory
            &&& limit > 0 && counted + size <= limit && code == 0 ==> {
                &&& result == 0
                &&& after[LocalCell::MemoryUsed] == counted + size
                &&& corrected[cell] + size <= 0xFFFF_FFFF_FFFF_FFFF ==> after[cell]
                    == corrected[cell] + size
                &&& after[other] == corrected[other]
            }
            &&& limit > 0 && (counted + size > limit || code != 0) ==> {
                &&& result == 207001
                &&& after == corrected
            }
            &&& is_admitted(memory, live, client.device_id, size) == (limit > 0 && counted + size
                <= limit)
        }),
{
    let corrected = crate::worker::usage::reclaimed(memory, live, client.device_id);
    assert(corrected[LocalCell::MemoryUsed] == crate::worker::usage::corrected_used(
        memory,
        live,
        client.device_id,
    ));
    if memory[LocalCell::MemoryLimit] != 0 && code != 0 {
        law_failed_malloc_leaves_no_trace(client, memory, live, size, code);
    }
}

impl FreeHook {
    /// Whether the hook asks for an access to the segment.
    pub open spec fn asks_for(self, access: Access<LocalCell>) -> bool {
        self.asks() == Step::<HookAction, u64>::Do(HookAction::Worker(WorkerAction::Memory(access)))
    }
}

/// Whatever others do meanwhile, a release calls the runtime first and returns its
/// code in the end. Where that is 0, there is a limit and the handle stands for some
/// bytes, they are taken off the counter of used memory and then off the client's
/// slot. The handle is forgotten where that code is 0 and there is a limit.
pub proof fn law_free_follows_runtime(
    client: &SchedulerClient,
    later: &SchedulerClient,
    handle: u64,
    code: u64,
    limit: u64,
    reply: u64,
)
    ensures
        ({
            let start = FreeHook::initial(handle);
            let called = start.next(client, code);
            let checked = called.next(client, limit);
            let known = client.hbm_handle_map@;
            let cell = LocalCell::ProcHbm(client.my_proc_idx, client.device_id);
            let counts = limit > 0 && code == 0 && known.contains_key(handle) && known[handle] > 0;
            &&& start.asks() == Step::<HookAction, u64>::Do(HookAction::CallRuntime)
            &&& called.asks_for(Access::Load(LocalCell::MemoryLimit))
            &&& start.handles(client, code) == known
            &&& limit > 0 && code == 0 ==> called.handles(client, limit) == known.remove(handle)
            &&& limit == 0 || code != 0 ==> called.handles(client, limit) == known
            &&& !counts ==> checked.asks() == Step::<HookAction, u64>::Done(code)
            &&& counts ==> {
                let last = checked.next(later, reply);
                &&& checked.asks_for(Access::FetchSub(LocalCell::MemoryUsed, known[handle]))
                &&& last.asks_for(Access::FetchSub(cell, known[handle]))
                &&& last.next(later, reply).asks() == Step::<HookAction, u64>::Done(code)
                &&& checked.handles(later, reply) == later.hbm_handle_map@
                &&& last.handles(later, reply) == later.hbm_handle_map@
            }
        }),
{
}

/// What a release on a segment that is held alone comes to: under a limit the
/// client's updates take place, one after the other, and without one nothing changes.
pub proof fn law_free_comes_to(
    client: &SchedulerClient,
    memory: Map<LocalCell, u64>,
    handle: u64,
    code: u64,
)
    ensures
        ({
            let limit = memory[LocalCell::MemoryLimit];
            let known = client.hbm_handle_map@;
            let cell = LocalCell::ProcHbm(client.my_proc_idx, client.device_id);
            let after = free_memory(client, memory, handle, code);
            let counts = limit > 0 && code == 0 && known.contains_key(handle) && known[handle] > 0;
            &&& !counts ==> after == memory
            &&& counts && memory[LocalCell::MemoryUsed] >= known[handle] && memory[cell]
                >= known[handle] ==> after == memory.insert(
                LocalCell::MemoryUsed,
                (memory[LocalCell::MemoryUsed] - known[handle]) as u64,
            ).insert(cell, (memory[cell] - known[handle]) as u64)
        }),
{
    let updates = client.free_updates(handle, code);
    reveal_with_fuel(crate::access::effects, 3);
    if updates.len() > 0 {
        assert(updates.drop_last() =~= seq![updates[0]]);
        assert(updates.drop_last().drop_last() =~= Seq::empty());
    }
}

/// What is reported of device memory: the limit as the total, and as free what is not
/// in use, less 128 MiB, or nothing.
pub proof fn law_report_is_limit_and_rest(quota: u64, used: u64)
    ensures
        reported_info(quota, used).total == quota,
        quota >= used + 134_217_728 ==> reported_info(quota, used).free == quota - used
            - 134_217_728,
        quota < used + 134_217_728 ==> reported_info(quota, used).free == 0,
{
}

impl MemoryInfoHook {
    /// Whether the hook asks for an access to the segment.
    pub open spec fn asks_for(self, access: Access<LocalCell>) -> bool {
        self.asks() == Step::<HookAction, (u64, Option<MemoryReport>)>::Do(
            HookAction::Worker(WorkerAction::Memory(access)),
        )
    }
}

/// Whatever others do meanwhile, a query without a limit is left to the runtime and
/// returns its code. Under a limit the limit is read again, usage of the client's
/// device is recalculated, and what live processes hold makes the report, with code
/// 0.
pub proof fn law_query_reports_usage(
    client: &SchedulerClient,
    limit: u64,
    quota: u64,
    code: u64,
    hook: MemoryInfoHook,
    scan: UsageScan,
    reply: u64,
)
    requires
        limit > 0,
        hook.phase == MemoryInfoPhase::Scan(quota, scan),
        scan.asks() is Do,
    ensures
        ({
            let start = MemoryInfoHook::initial(client);
            let unlimited = start.next(0);
            let limited = start.next(limit);
            &&& start.asks_for(Access::Load(LocalCell::MemoryLimit))
            &&& unlimited.asks() == Step::<HookAction, (u64, Option<MemoryReport>)>::Do(
                HookAction::CallRuntime,
            )
            &&& unlimited.next(code).asks() == Step::<HookAction, (u64, Option<MemoryReport>)>::Done(
                (code, None),
            )
            &&& limited.asks_for(Access::Load(LocalCell::MemoryLimit))
            &&& limited.next(quota).phase == MemoryInfoPhase::Scan(
                quota,
                UsageScan::initial(client.device_id),
            )
        }),
        hook.asks() == Step::<HookAction, (u64, Option<MemoryReport>)>::Do(
            HookAction::Worker(scan.asks()->Do_0),
        ),
        scan.next(reply).asks() is Do ==> hook.next(reply).phase == MemoryInfoPhase::Scan(
            quota,
            scan.next(reply),
        ),
        scan.next(reply).asks() matches Step::Done(used) ==> {
            &&& hook.next(reply).asks() matches Step::Done(result) && result.0 == 0
                && result.1 is Some
            &&& hook.next(reply).asks()->Done_0.1->0.total == quota
            &&& quota >= used + 134_217_728 ==> hook.next(reply).asks()->Done_0.1->0.free == quota
                - used - 134_217_728
            &&& quota < used + 134_217_728 ==> hook.next(reply).asks()->Done_0.1->0.free == 0
        },
        scan.next(reply).asks() is Overflow ==> hook.next(reply).asks() is Overflow,
{
}

} // verus!
